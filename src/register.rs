use vstd::prelude::*;

use crate::cpu::CpuState;
use crate::error::CpuError;

verus! {

/// The processor's privilege modes.
#[derive(PartialEq, Eq, Structural, Debug, Clone, Copy)]
pub enum CPUMode {
    User,
    FIQ,
    IRQ,
    Supervisor,
    Abort,
    Undefined,
    System,
}

/// The five-bit encoding of a privilege mode in the status register.
pub open spec fn mode_bits(mode: CPUMode) -> u32 {
    match mode {
        CPUMode::User => 0b10000,
        CPUMode::FIQ => 0b10001,
        CPUMode::IRQ => 0b10010,
        CPUMode::Supervisor => 0b10011,
        CPUMode::Abort => 0b10111,
        CPUMode::Undefined => 0b11011,
        CPUMode::System => 0b11111,
    }
}

/// The privilege mode whose encoding is `bits`, if any.
pub open spec fn mode_of_bits(bits: u32) -> Option<CPUMode> {
    if bits == 0b10000 {
        Some(CPUMode::User)
    } else if bits == 0b10001 {
        Some(CPUMode::FIQ)
    } else if bits == 0b10010 {
        Some(CPUMode::IRQ)
    } else if bits == 0b10011 {
        Some(CPUMode::Supervisor)
    } else if bits == 0b10111 {
        Some(CPUMode::Abort)
    } else if bits == 0b11011 {
        Some(CPUMode::Undefined)
    } else if bits == 0b11111 {
        Some(CPUMode::System)
    } else {
        None
    }
}

impl CPUMode {
    /// The five-bit encoding of this mode.
    pub fn bits(&self) -> (r: u32)
        ensures
            r == mode_bits(*self),
    {
        match self {
            CPUMode::User => 0b10000,
            CPUMode::FIQ => 0b10001,
            CPUMode::IRQ => 0b10010,
            CPUMode::Supervisor => 0b10011,
            CPUMode::Abort => 0b10111,
            CPUMode::Undefined => 0b11011,
            CPUMode::System => 0b11111,
        }
    }
}

/// The four condition flags of the status register.
#[derive(PartialEq, Eq, Structural, Debug, Clone, Copy)]
pub enum CpsrFlag {
    N,
    Z,
    C,
    V,
}

/// The bit of the status register that holds `flag`.
pub open spec fn flag_position(flag: CpsrFlag) -> u32 {
    match flag {
        CpsrFlag::N => 31,
        CpsrFlag::Z => 30,
        CpsrFlag::C => 29,
        CpsrFlag::V => 28,
    }
}

/// Whether `flag` is set in the status word `v`.
pub open spec fn flag_of(v: u32, flag: CpsrFlag) -> bool {
    (v >> flag_position(flag)) & 1 == 1
}

/// The status word `v` with `flag` set to `value` and every other bit kept.
pub open spec fn with_flag(v: u32, flag: CpsrFlag, value: bool) -> u32 {
    if value {
        v | (1u32 << flag_position(flag))
    } else {
        v & !(1u32 << flag_position(flag))
    }
}

/// The instruction set that the status word `v` selects (bit 5).
pub open spec fn state_of(v: u32) -> CpuState {
    if (v >> 5u32) & 1 == 1 {
        CpuState::THUMB
    } else {
        CpuState::ARM
    }
}

/// The privilege mode that the status word `v` holds, if its mode field is valid.
pub open spec fn mode_of(v: u32) -> Option<CPUMode> {
    mode_of_bits(v & 0x1f)
}

/// A status register: flags in bits 31 to 28, instruction set in bit 5, mode in bits 4 to 0.
#[derive(Clone, Copy)]
pub struct CPSR(u32);

impl View for CPSR {
    type V = u32;

    closed spec fn view(&self) -> u32 {
        self.0
    }
}

impl CPSR {
    /// The status register holding `x`.
    pub closed spec fn new_spec(x: u32) -> Self {
        CPSR(x)
    }

    pub fn new(x: u32) -> (r: Self)
        ensures
            r@ == x,
            r == Self::new_spec(x),
    {
        CPSR(x)
    }

    /// Whether `flag` is set.
    pub fn is_valid_flag(&self, flag: CpsrFlag) -> (r: bool)
        ensures
            r == flag_of(self@, flag),
    {
        let v = self.0;
        match flag {
            CpsrFlag::N => ((v >> 31u32) & 1) == 1,
            CpsrFlag::Z => ((v >> 30u32) & 1) == 1,
            CpsrFlag::C => ((v >> 29u32) & 1) == 1,
            CpsrFlag::V => ((v >> 28u32) & 1) == 1,
        }
    }

    /// Sets `flag` to `value`, leaving every other bit as it was.
    pub fn set_nzcv_flag(&mut self, flag: CpsrFlag, value: bool)
        ensures
            final(self)@ == with_flag(old(self)@, flag, value),
            flag_of(final(self)@, flag) == value,
            forall|f: CpsrFlag| f != flag ==> flag_of(final(self)@, f) == flag_of(old(self)@, f),
            final(self)@ & 0x3f == old(self)@ & 0x3f,
    {
        let pos: u32 = match flag {
            CpsrFlag::N => 31,
            CpsrFlag::Z => 30,
            CpsrFlag::C => 29,
            CpsrFlag::V => 28,
        };
        let v = self.0;
        if value {
            self.0 = v | (1u32 << pos);
        } else {
            self.0 = v & !(1u32 << pos);
        }
        proof {
            lemma_with_flag(v, flag, value);
        }
    }

    /// Selects the instruction set: sets bit 5 for the compressed set, clears it for the
    /// 32-bit set.
    pub fn set_cpu_state(&mut self, state: CpuState)
        ensures
            final(self)@ == (match state {
                CpuState::THUMB => old(self)@ | 0x20,
                CpuState::ARM => old(self)@ & 0xffff_ffdf,
            }),
            state_of(final(self)@) == state,
            forall|f: CpsrFlag| flag_of(final(self)@, f) == flag_of(old(self)@, f),
            final(self)@ & 0x1f == old(self)@ & 0x1f,
    {
        let v = self.0;
        match state {
            CpuState::THUMB => self.0 = v | 0x0000_0020,
            CpuState::ARM => self.0 = v & 0xffff_ffdf,
        }
        proof {
            let w = self.0;
            assert((v | 0x20) >> 5u32 & 1 == 1 && (v | 0x20) & 0x1f == v & 0x1f) by (bit_vector);
            assert((v & 0xffff_ffdf) >> 5u32 & 1 == 0 && (v & 0xffff_ffdf) & 0x1f == v & 0x1f)
                by (bit_vector);
            assert forall|f: CpsrFlag| flag_of(w, f) == flag_of(v, f) by {
                lemma_high_bits_kept(v, w, flag_position(f));
            }
        }
    }

    /// The instruction set that bit 5 selects.
    pub fn get_cpu_state(&self) -> (r: CpuState)
        ensures
            r == state_of(self@),
    {
        if (self.0 >> 5u32) & 1 == 1 {
            CpuState::THUMB
        } else {
            CpuState::ARM
        }
    }

    /// The privilege mode held in bits 4 to 0; an error if they encode none.
    pub fn get_mode(&self) -> (r: Result<CPUMode, CpuError>)
        ensures
            r == (match mode_of(self@) {
                Some(m) => Ok::<CPUMode, CpuError>(m),
                None => Err(CpuError::InvalidMode(self@ & 0x1f)),
            }),
    {
        let bits = self.0 & 0b11111;
        if bits == 0b10000 {
            Ok(CPUMode::User)
        } else if bits == 0b10001 {
            Ok(CPUMode::FIQ)
        } else if bits == 0b10010 {
            Ok(CPUMode::IRQ)
        } else if bits == 0b10011 {
            Ok(CPUMode::Supervisor)
        } else if bits == 0b10111 {
            Ok(CPUMode::Abort)
        } else if bits == 0b11011 {
            Ok(CPUMode::Undefined)
        } else if bits == 0b11111 {
            Ok(CPUMode::System)
        } else {
            Err(CpuError::InvalidMode(bits))
        }
    }

    /// Replaces the whole status word.
    pub fn write(&mut self, value: u32)
        ensures
            final(self)@ == value,
    {
        self.0 = value;
    }

    /// The whole status word.
    pub fn read(&self) -> (r: u32)
        ensures
            r == self@,
    {
        self.0
    }
}

/// Setting one flag fixes that flag, keeps the other three and the low six bits.
proof fn lemma_with_flag(v: u32, flag: CpsrFlag, value: bool)
    ensures
        flag_of(with_flag(v, flag, value), flag) == value,
        forall|f: CpsrFlag| f != flag ==> flag_of(with_flag(v, flag, value), f) == flag_of(v, f),
        with_flag(v, flag, value) & 0x3f == v & 0x3f,
{
    let p = flag_position(flag);
    let w = with_flag(v, flag, value);
    assert(28 <= p < 32);
    if value {
        assert(28 <= p < 32 ==> ((v | (1u32 << p)) >> p) & 1 == 1) by (bit_vector);
        assert(28 <= p < 32 ==> (v | (1u32 << p)) & 0x3f == v & 0x3f) by (bit_vector);
        assert forall|f: CpsrFlag| f != flag implies flag_of(w, f) == flag_of(v, f) by {
            let q = flag_position(f);
            assert(q != p);
            assert(28 <= p < 32 && 28 <= q < 32 && q != p ==> ((v | (1u32 << p)) >> q) & 1 == (v
                >> q) & 1) by (bit_vector);
        }
    } else {
        assert(28 <= p < 32 ==> ((v & !(1u32 << p)) >> p) & 1 == 0) by (bit_vector);
        assert(28 <= p < 32 ==> (v & !(1u32 << p)) & 0x3f == v & 0x3f) by (bit_vector);
        assert forall|f: CpsrFlag| f != flag implies flag_of(w, f) == flag_of(v, f) by {
            let q = flag_position(f);
            assert(q != p);
            assert(28 <= p < 32 && 28 <= q < 32 && q != p ==> ((v & !(1u32 << p)) >> q) & 1 == (v
                >> q) & 1) by (bit_vector);
        }
    }
}

/// Two words that differ only in bit 5 agree on every bit from 28 up.
proof fn lemma_high_bits_kept(v: u32, w: u32, q: u32)
    requires
        w == v | 0x20 || w == v & 0xffff_ffdf,
        28 <= q < 32,
    ensures
        (w >> q) & 1 == (v >> q) & 1,
{
    assert((w == v | 0x20 || w == v & 0xffff_ffdf) && 28 <= q < 32 ==> (w >> q) & 1 == (v >> q) & 1)
        by (bit_vector);
}

/// Which of the two banks of r8 to r12 a mode uses: the FIQ bank or the shared one.
pub open spec fn bank_r8_r12(mode: CPUMode) -> int {
    if mode == CPUMode::FIQ {
        1
    } else {
        0
    }
}

/// Which of the six banks of r13 and r14 a mode uses; User and System share one.
pub open spec fn bank_r13_r14(mode: CPUMode) -> int {
    match mode {
        CPUMode::System | CPUMode::User => 0,
        CPUMode::FIQ => 1,
        CPUMode::Supervisor => 2,
        CPUMode::Abort => 3,
        CPUMode::IRQ => 4,
        CPUMode::Undefined => 5,
    }
}

/// Where logical register `index`, seen in `mode`, is stored among the 31 physical cells:
/// r0 to r7 in cells 0 to 7, r8 to r12 two to a register from cell 8, r13 and r14 six to a
/// register from cell 18, r15 in cell 30.
pub open spec fn cell_index(mode: CPUMode, index: int) -> int {
    if index < 8 {
        index
    } else if index < 13 {
        8 + 2 * (index - 8) + bank_r8_r12(mode)
    } else if index < 15 {
        18 + 6 * (index - 13) + bank_r13_r14(mode)
    } else {
        30
    }
}

/// The register file: sixteen logical registers over 31 physical cells, the current status
/// register and one saved status register for each privileged mode.
pub struct Register {
    pub r0_r7: [u32; 8],
    pub r8_r12: [u32; 10],
    pub r13_r14: [u32; 12],
    pub r15: u32,
    pub cpsr: CPSR,
    pub spsr: [CPSR; 6],
}

impl Register {
    /// The physical cells, in the order that `cell_index` gives.
    pub open spec fn cells(self) -> Seq<u32> {
        self.r0_r7@ + self.r8_r12@ + self.r13_r14@ + seq![self.r15]
    }

    /// The saved status registers.
    pub open spec fn saved(self) -> Seq<CPSR> {
        self.spsr@
    }

    /// The current status register holds a valid mode.
    pub open spec fn wf(self) -> bool {
        &&& self.cells().len() == 31
        &&& mode_of(self.cpsr@) is Some
    }

    /// The current privilege mode.
    pub open spec fn mode(self) -> CPUMode {
        mode_of(self.cpsr@)->Some_0
    }

    /// The physical cell behind logical register `index` in the current mode.
    pub open spec fn slot(self, index: int) -> int {
        cell_index(self.mode(), index)
    }

    /// The value of logical register `index` in the current mode.
    pub open spec fn reg(self, index: int) -> u32 {
        self.cells()[self.slot(index)]
    }

    /// All registers zero, in Supervisor mode with flags clear and the 32-bit instruction set.
    pub fn new() -> (r: Self)
        ensures
            r.wf(),
            r.cells() == Seq::new(31, |i: int| 0u32),
            r.cpsr@ == 0xd3,
            r.mode() == CPUMode::Supervisor,
            state_of(r.cpsr@) == CpuState::ARM,
            forall|f: CpsrFlag| !flag_of(r.cpsr@, f),
            r.saved() == Seq::new(6, |i: int| CPSR::new_spec(0)),
    {
        let r = Register {
            r0_r7: [0u32, 0, 0, 0, 0, 0, 0, 0],
            r8_r12: [0u32, 0, 0, 0, 0, 0, 0, 0, 0, 0],
            r13_r14: [0u32, 0, 0, 0, 0, 0, 0, 0, 0, 0, 0, 0],
            r15: 0,
            cpsr: CPSR::new(0x0000_00d3),
            spsr: [
                CPSR::new(0),
                CPSR::new(0),
                CPSR::new(0),
                CPSR::new(0),
                CPSR::new(0),
                CPSR::new(0),
            ],
        };
        proof {
            assert(0xd3u32 & 0x1f == 0x13) by (bit_vector);
            assert((0xd3u32 >> 5u32) & 1 == 0) by (bit_vector);
            assert(forall|p: u32| 28 <= p < 32 ==> (0xd3u32 >> p) & 1 == 0) by (bit_vector);
            assert(r.cells() =~= Seq::new(31, |i: int| 0u32));
            assert(r.saved() =~= Seq::new(6, |i: int| CPSR::new_spec(0)));
        }
        r
    }

    /// Logical register `index` (0 to 15) as the current mode sees it.
    pub fn read(&self, index: usize) -> (r: u32)
        requires
            self.wf(),
            index < 16,
        ensures
            r == self.reg(index as int),
    {
        if index < 8 {
            self.r0_r7[index]
        } else if index < 13 {
            self.read_r8_r12(index)
        } else if index < 15 {
            self.read_r13_r14(index)
        } else {
            self.r15
        }
    }

    /// Stores `value` in logical register `index` (0 to 15), in the cell that the current
    /// mode selects; every other cell and the status registers stay as they were.
    pub fn write(&mut self, index: usize, value: u32)
        requires
            old(self).wf(),
            index < 16,
        ensures
            final(self).cells() == old(self).cells().update(old(self).slot(index as int), value),
            final(self).cpsr == old(self).cpsr,
            final(self).saved() == old(self).saved(),
            final(self).wf(),
    {
        if index < 8 {
            self.r0_r7[index] = value;
        } else if index < 13 {
            self.write_r8_r12(index, value);
        } else if index < 15 {
            self.write_r13_r14(index, value);
        } else {
            self.r15 = value;
        }
        assert(self.cells() =~= old(self).cells().update(old(self).slot(index as int), value));
    }

    /// r8_r12[0] is r8, r8_r12[1] its FIQ copy, and so on up to r8_r12[9], the FIQ copy of r12.
    fn read_r8_r12(&self, index: usize) -> (r: u32)
        requires
            self.wf(),
            8 <= index < 13,
        ensures
            r == self.reg(index as int),
    {
        let bank_index = self.get_bank_index_r8_r12();
        let register_index = 2 * (index - 8) + bank_index;
        self.r8_r12[register_index]
    }

    fn write_r8_r12(&mut self, index: usize, value: u32)
        requires
            old(self).wf(),
            8 <= index < 13,
        ensures
            final(self).r8_r12@ == old(self).r8_r12@.update(
                old(self).slot(index as int) - 8,
                value,
            ),
            final(self).r0_r7 == old(self).r0_r7,
            final(self).r13_r14 == old(self).r13_r14,
            final(self).r15 == old(self).r15,
            final(self).cpsr == old(self).cpsr,
            final(self).spsr == old(self).spsr,
    {
        let bank_index = self.get_bank_index_r8_r12();
        let register_index = 2 * (index - 8) + bank_index;
        self.r8_r12[register_index] = value;
    }

    /// r13_r14[0] is r13 of User and System, r13_r14[1] to [5] its copies for FIQ, Supervisor,
    /// Abort, IRQ and Undefined; r13_r14[6] to [11] hold r14 in the same order.
    fn read_r13_r14(&self, index: usize) -> (r: u32)
        requires
            self.wf(),
            13 <= index < 15,
        ensures
            r == self.reg(index as int),
    {
        let bank_index = self.get_bank_index_r13_14();
        let register_index = 6 * (index - 13) + bank_index;
        self.r13_r14[register_index]
    }

    fn write_r13_r14(&mut self, index: usize, value: u32)
        requires
            old(self).wf(),
            13 <= index < 15,
        ensures
            final(self).r13_r14@ == old(self).r13_r14@.update(
                old(self).slot(index as int) - 18,
                value,
            ),
            final(self).r0_r7 == old(self).r0_r7,
            final(self).r8_r12 == old(self).r8_r12,
            final(self).r15 == old(self).r15,
            final(self).cpsr == old(self).cpsr,
            final(self).spsr == old(self).spsr,
    {
        let bank_index = self.get_bank_index_r13_14();
        let register_index = 6 * (index - 13) + bank_index;
        self.r13_r14[register_index] = value;
    }

    /// The bank of r8 to r12 that the current mode uses.
    fn get_bank_index_r8_r12(&self) -> (r: usize)
        requires
            self.wf(),
        ensures
            r == bank_r8_r12(self.mode()),
    {
        match self.cpsr.get_mode() {
            Ok(CPUMode::FIQ) => 1,
            _ => 0,
        }
    }

    /// The bank of r13 and r14 that the current mode uses.
    fn get_bank_index_r13_14(&self) -> (r: usize)
        requires
            self.wf(),
        ensures
            r == bank_r13_r14(self.mode()),
    {
        match self.cpsr.get_mode() {
            Ok(CPUMode::System) | Ok(CPUMode::User) => 0,
            Ok(CPUMode::FIQ) => 1,
            Ok(CPUMode::Supervisor) => 2,
            Ok(CPUMode::Abort) => 3,
            Ok(CPUMode::IRQ) => 4,
            _ => 5,
        }
    }

    /// Replaces the status word with the bare encoding of `mode`: flags clear, 32-bit
    /// instruction set. The cells are untouched.
    pub fn set_mode(&mut self, mode: CPUMode)
        ensures
            final(self).cpsr@ == mode_bits(mode),
            final(self).cells() == old(self).cells(),
            final(self).saved() == old(self).saved(),
            final(self).mode() == mode,
            final(self).wf(),
    {
        let bits = mode.bits();
        self.cpsr.write((self.cpsr.read() & 0b00000) | bits);
        proof {
            let v = old(self).cpsr@;
            assert((v & 0u32) | bits == bits) by (bit_vector);
            assert(bits & 0x1f == bits) by (bit_vector)
                requires
                    bits == 0x10u32 || bits == 0x11u32 || bits == 0x12u32 || bits == 0x13u32 || bits
                        == 0x17u32 || bits == 0x1bu32 || bits == 0x1fu32,
            ;
        }
    }
}

/// Whether register `i` seen in mode `m1` and register `j` seen in mode `m2` are the same
/// storage: the same register, and either unbanked or banked alike in the two modes.
pub open spec fn shares_cell(m1: CPUMode, i: int, m2: CPUMode, j: int) -> bool {
    &&& i == j
    &&& (i < 8 || i == 15 || (8 <= i < 13 && (m1 == CPUMode::FIQ) == (m2 == CPUMode::FIQ)) || (13
        <= i < 15 && (m1 == m2 || ((m1 == CPUMode::User || m1 == CPUMode::System) && (m2
        == CPUMode::User || m2 == CPUMode::System)))))
}

/// Banking: every logical register in every mode has a cell among the 31, and two of them
/// have the same cell exactly when they share storage.
pub proof fn lemma_banking(m1: CPUMode, i: int, m2: CPUMode, j: int)
    requires
        0 <= i < 16,
        0 <= j < 16,
    ensures
        0 <= cell_index(m1, i) < 31,
        cell_index(m1, i) == cell_index(m2, j) <==> shares_cell(m1, i, m2, j),
{
}

/// Isolation of banks: after `value` is written to register `index` in the current mode,
/// register `j` seen in any `mode` reads `value` if it shares that storage, and otherwise
/// what it read before.
pub proof fn lemma_write_isolation(
    before: Register,
    after: Register,
    index: int,
    value: u32,
    mode: CPUMode,
    j: int,
)
    requires
        before.wf(),
        0 <= index < 16,
        0 <= j < 16,
        after.cells() == before.cells().update(before.slot(index), value),
    ensures
        after.cells()[cell_index(mode, j)] == if shares_cell(before.mode(), index, mode, j) {
            value
        } else {
            before.cells()[cell_index(mode, j)]
        },
{
    lemma_banking(before.mode(), index, mode, j);
}

} // verus!

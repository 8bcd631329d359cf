use rust_gba::cpu::CpuState;
use rust_gba::error::CpuError;
use rust_gba::register::{CPUMode, CpsrFlag, Register, CPSR};

#[test]
fn register_write_read_r0_r7() {
    let mut register = Register::new();

    let cpu_modes = vec![
        CPUMode::System,
        CPUMode::User,
        CPUMode::FIQ,
        CPUMode::Supervisor,
        CPUMode::Abort,
        CPUMode::IRQ,
        CPUMode::Undefined,
    ];

    register.set_mode(CPUMode::System);
    for index in 0..8 {
        register.write(index, index as u32 + 10);
    }

    for index in 0..8 {
        for cpu_mode in &cpu_modes {
            register.set_mode(*cpu_mode);
            assert_eq!(register.read(index), index as u32 + 10);
        }
    }
}

#[test]
fn register_write_read_r8_r12() {
    let mut register = Register::new();
    for index in 8..13 {
        for cpu_mode in [CPUMode::System, CPUMode::FIQ] {
            register.set_mode(cpu_mode);
            let value = match cpu_mode {
                CPUMode::System => index as u32,
                CPUMode::FIQ => index as u32 + 10,
                _ => panic!(""),
            };
            register.write(index, value)
        }
    }

    for index in 8..13 {
        let cpu_modes = vec![
            CPUMode::System,
            CPUMode::User,
            CPUMode::FIQ,
            CPUMode::Supervisor,
            CPUMode::Abort,
            CPUMode::IRQ,
            CPUMode::Undefined,
        ];

        for cpu_mode in &cpu_modes {
            register.set_mode(*cpu_mode);
            let answer = if *cpu_mode == CPUMode::FIQ {
                index as u32 + 10
            } else {
                index as u32
            };

            assert_eq!(register.read(index), answer);
        }
    }
}

#[test]
fn register_write_read_13_r14() {
    let mut register = Register::new();

    let cpu_modes_other_than_user = vec![
        CPUMode::System,
        CPUMode::FIQ,
        CPUMode::Supervisor,
        CPUMode::Abort,
        CPUMode::IRQ,
        CPUMode::Undefined,
    ];

    for register_index in 13..15 {
        for (mode_index, cpu_mode) in cpu_modes_other_than_user.iter().enumerate() {
            register.set_mode(*cpu_mode);
            let value = register_index as u32 + mode_index as u32;
            register.write(register_index, value)
        }
    }

    let cpu_modes_all = vec![
        CPUMode::System,
        CPUMode::User,
        CPUMode::FIQ,
        CPUMode::Supervisor,
        CPUMode::Abort,
        CPUMode::IRQ,
        CPUMode::Undefined,
    ];

    for register_index in 13..15 {
        for cpu_mode in &cpu_modes_all {
            register.set_mode(*cpu_mode);

            let answer = match *cpu_mode {
                CPUMode::System | CPUMode::User => register_index,
                CPUMode::FIQ => register_index + 1,
                CPUMode::Supervisor => register_index + 2,
                CPUMode::Abort => register_index + 3,
                CPUMode::IRQ => register_index + 4,
                CPUMode::Undefined => register_index + 5,
            };

            assert_eq!(register.read(register_index), answer as u32);
        }
    }
}

#[test]
fn register_write_read_r15() {
    let mut register = Register::new();
    register.set_mode(CPUMode::System);
    register.write(15, 10);

    let cpu_modes_all = vec![
        CPUMode::System,
        CPUMode::User,
        CPUMode::FIQ,
        CPUMode::Supervisor,
        CPUMode::Abort,
        CPUMode::IRQ,
        CPUMode::Undefined,
    ];

    for cpu_mode in &cpu_modes_all {
        register.set_mode(*cpu_mode);
        assert_eq!(register.read(15), 10);
    }
}

#[test]
fn is_valid_flag() {
    let cpsr = CPSR::new(0);
    assert_eq!(cpsr.is_valid_flag(CpsrFlag::N), false);
    assert_eq!(cpsr.is_valid_flag(CpsrFlag::Z), false);
    assert_eq!(cpsr.is_valid_flag(CpsrFlag::C), false);
    assert_eq!(cpsr.is_valid_flag(CpsrFlag::V), false);

    let cpsr = CPSR::new(0b1000_0000_0000_0000_0000_0000_0000_0000);
    assert_eq!(cpsr.is_valid_flag(CpsrFlag::N), true);
    assert_eq!(cpsr.is_valid_flag(CpsrFlag::Z), false);
    assert_eq!(cpsr.is_valid_flag(CpsrFlag::C), false);
    assert_eq!(cpsr.is_valid_flag(CpsrFlag::V), false);

    let cpsr = CPSR::new(0b0100_0000_0000_0000_0000_0000_0000_0000);
    assert_eq!(cpsr.is_valid_flag(CpsrFlag::N), false);
    assert_eq!(cpsr.is_valid_flag(CpsrFlag::Z), true);
    assert_eq!(cpsr.is_valid_flag(CpsrFlag::C), false);
    assert_eq!(cpsr.is_valid_flag(CpsrFlag::V), false);

    let cpsr = CPSR::new(0b0010_0000_0000_0000_0000_0000_0000_0000);
    assert_eq!(cpsr.is_valid_flag(CpsrFlag::N), false);
    assert_eq!(cpsr.is_valid_flag(CpsrFlag::Z), false);
    assert_eq!(cpsr.is_valid_flag(CpsrFlag::C), true);
    assert_eq!(cpsr.is_valid_flag(CpsrFlag::V), false);

    let cpsr = CPSR::new(0b0001_0000_0000_0000_0000_0000_0000_0000);
    assert_eq!(cpsr.is_valid_flag(CpsrFlag::N), false);
    assert_eq!(cpsr.is_valid_flag(CpsrFlag::Z), false);
    assert_eq!(cpsr.is_valid_flag(CpsrFlag::C), false);
    assert_eq!(cpsr.is_valid_flag(CpsrFlag::V), true);
}

#[test]
fn get_mode() {
    let cpsrs = vec![
        CPSR::new(0b10000),
        CPSR::new(0b10001),
        CPSR::new(0b10010),
        CPSR::new(0b10011),
        CPSR::new(0b10111),
        CPSR::new(0b11011),
        CPSR::new(0b11111),
    ];
    let answers = vec![
        CPUMode::User,
        CPUMode::FIQ,
        CPUMode::IRQ,
        CPUMode::Supervisor,
        CPUMode::Abort,
        CPUMode::Undefined,
        CPUMode::System,
    ];

    for (cpsr, answer) in cpsrs.into_iter().zip(answers.into_iter()) {
        assert_eq!(cpsr.get_mode(), Ok(answer))
    }
}

#[test]
fn cpu_state() {
    let mut register = Register::new();
    // initial cpu state of cpsr is ARM.
    assert_eq!(register.cpsr.get_cpu_state(), CpuState::ARM);

    register.cpsr.set_cpu_state(CpuState::THUMB);
    assert_eq!(register.cpsr.get_cpu_state(), CpuState::THUMB);

    register.cpsr.set_cpu_state(CpuState::ARM);
    assert_eq!(register.cpsr.get_cpu_state(), CpuState::ARM);
}

#[test]
fn get_mode_rejects_invalid_field() {
    assert_eq!(CPSR::new(0x0000_0000).get_mode(), Err(CpuError::InvalidMode(0)));
    assert_eq!(CPSR::new(0xf000_0014).get_mode(), Err(CpuError::InvalidMode(0x14)));
    assert_eq!(CPSR::new(0xffff_ffff).get_mode(), Ok(CPUMode::System));
}

#[test]
fn reset_state_is_supervisor_with_flags_clear() {
    let register = Register::new();
    assert_eq!(register.cpsr.read(), 0xd3);
    assert_eq!(register.cpsr.get_mode(), Ok(CPUMode::Supervisor));
    for flag in [CpsrFlag::N, CpsrFlag::Z, CpsrFlag::C, CpsrFlag::V] {
        assert!(!register.cpsr.is_valid_flag(flag));
    }
    for index in 0..16 {
        assert_eq!(register.read(index), 0);
    }
}

#[test]
fn banked_registers_keep_one_value_per_mode() {
    let modes = [
        CPUMode::User,
        CPUMode::FIQ,
        CPUMode::IRQ,
        CPUMode::Supervisor,
        CPUMode::Abort,
        CPUMode::Undefined,
        CPUMode::System,
    ];
    let mut register = Register::new();
    for (k, mode) in modes.iter().enumerate() {
        register.set_mode(*mode);
        for index in 0..16 {
            register.write(index, 100 * index as u32 + k as u32);
        }
    }
    // Read back in reverse order of modes.
    for (k, mode) in modes.iter().enumerate().rev() {
        register.set_mode(*mode);
        for index in 0..16 {
            let last_writer = if index < 8 || index == 15 {
                6
            } else if index < 13 {
                if *mode == CPUMode::FIQ { 1 } else { 6 }
            } else if *mode == CPUMode::User || *mode == CPUMode::System {
                6
            } else {
                k
            };
            assert_eq!(register.read(index), 100 * index as u32 + last_writer as u32);
        }
    }
}

#[test]
fn set_flag_keeps_other_bits() {
    let mut cpsr = CPSR::new(0x0000_00d3);
    cpsr.set_nzcv_flag(CpsrFlag::C, true);
    assert_eq!(cpsr.read(), 0x2000_00d3);
    cpsr.set_nzcv_flag(CpsrFlag::V, true);
    assert_eq!(cpsr.read(), 0x3000_00d3);
    cpsr.set_nzcv_flag(CpsrFlag::C, false);
    assert_eq!(cpsr.read(), 0x1000_00d3);
    cpsr.write(0xffff_ffff);
    cpsr.set_cpu_state(CpuState::ARM);
    assert_eq!(cpsr.read(), 0xffff_ffdf);
}

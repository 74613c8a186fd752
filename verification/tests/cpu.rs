use crusty::gba::cpu::{CPU, PC, SP};
use crusty::gba::system::SystemMemory;

#[test]
fn run_add_instruction() {
    let mut ram = SystemMemory::test();
    let mut cpu = CPU {
        registers: [0, 0, 0, 0, 12, 0, 23, 0, 0, 0, 0, 0, 0, 0, 0, 0],
        ..CPU::default()
    };

    cpu.run_instruction(&mut ram, 0xe0844006, 0x0);

    let rhs = CPU {
        registers: [0, 0, 0, 0, 35, 0, 23, 0, 0, 0, 0, 0, 0, 0, 0, 0],
        cycles: 1,
        ..CPU::default()
    };
    assert_eq!(cpu, rhs);
}

#[test]
fn run_add_thumb_instruction() {
    let mut ram = SystemMemory::test();
    let mut cpu = CPU {
        registers: [2, 8, 0, 0, 12, 3, 23, 0, 0, 0, 0, 0, 0, 0, 0, 0],
        ..CPU::default()
    };
    cpu.update_thumb(true);

    cpu.run_instruction(&mut ram, 0x1909, 0x0);
    cpu.run_instruction(&mut ram, 0x4368, 0x0);

    let mut rhs = CPU {
        registers: [6, 20, 0, 0, 12, 3, 23, 0, 0, 0, 0, 0, 0, 0, 0, 0],
        cycles: 3,
        ..CPU::default()
    };
    rhs.update_thumb(true);
    assert_eq!(cpu, rhs);
}

#[test]
fn run_ldm_stm_instructions() {
    let mut ram = SystemMemory::test();
    let mut cpu = CPU {
        registers: [0, 1, 2, 3, 4, 5, 6, 7, 8, 9, 10, 11, 12, 0x100, 14, 15],
        ..CPU::default()
    };

    // r4,r5,r6,r7,r8,r9,r10,r11,lr
    cpu.run_instruction(&mut ram, 0xe92d4ff0, 0x0);

    assert_eq!(14, ram.read_word(0x0fc).unwrap());
    assert_eq!(11, ram.read_word(0x0f8).unwrap());
    assert_eq!(10, ram.read_word(0x0f4).unwrap());
    assert_eq!(9, ram.read_word(0x0f0).unwrap());
    assert_eq!(8, ram.read_word(0x0ec).unwrap());
    assert_eq!(7, ram.read_word(0x0e8).unwrap());
    assert_eq!(6, ram.read_word(0x0e4).unwrap());
    assert_eq!(5, ram.read_word(0x0e0).unwrap());
    assert_eq!(4, ram.read_word(0x0dc).unwrap());
    assert_eq!(10, cpu.cycles());

    cpu.registers = [255, 255, 255, 255, 255, 255, 255, 255, 255, 255, 255, 255, 255, 0xdc, 255, 255];
    cpu.run_instruction(&mut ram, 0xe8bd4ff0, 0x0);

    let rhs = CPU {
        registers: [255, 255, 255, 255, 4, 5, 6, 7, 8, 9, 10, 11, 255, 256, 14, 255],
        cycles: 21,
        ..CPU::default()
    };
    assert_eq!(cpu, rhs);
}

#[test]
fn run_push_pop_instructions() {
    let mut ram = SystemMemory::test();
    let mut cpu = CPU {
        registers: [1, 2, 3, 4, 5, 6, 7, 8, 9, 10, 11, 12, 13, 0x18, 15, 16],
        ..CPU::default()
    };
    cpu.update_thumb(true);

    //r4, r5, r7, lr
    cpu.run_instruction(&mut ram, 0xb5b0, 0x0);

    assert_eq!(15, ram.read_word(0x14).unwrap());
    assert_eq!(8, ram.read_word(0x10).unwrap());
    assert_eq!(6, ram.read_word(0x0c).unwrap());
    assert_eq!(5, ram.read_word(0x08).unwrap());
    assert_eq!(5, cpu.cycles());

    cpu.registers = [0; 16];
    cpu.registers[SP] = 0x08;
    cpu.run_instruction(&mut ram, 0xbcb0, 0x0);

    let mut rhs = CPU {
        registers: [0, 0, 0, 0, 5, 6, 0, 8, 0, 0, 0, 0, 0, 0x14, 0, 0],
        cycles: 10,
        ..CPU::default()
    };
    rhs.update_thumb(true);
    assert_eq!(cpu, rhs);
}

#[test]
fn run_ldm_stm_instructions_pak_ram() {
    let mut ram = SystemMemory::test_pak_ram();
    let mut cpu = CPU {
        registers: [0, 1, 2, 3, 4, 5, 6, 7, 8, 9, 10, 11, 12, 0x8000100, 14, 15],
        ..CPU::default()
    };

    //store: r4,r5,r6,r7,r8,r9,r10,r11,lr
    cpu.run_instruction(&mut ram, 0xe92d4ff0, 0x0);

    assert_eq!(0, ram.read_word(0x8000100).unwrap());
    assert_eq!(14, ram.read_word(0x80000fc).unwrap());
    assert_eq!(11, ram.read_word(0x80000f8).unwrap());
    assert_eq!(10, ram.read_word(0x80000f4).unwrap());
    assert_eq!(9, ram.read_word(0x80000f0).unwrap());
    assert_eq!(8, ram.read_word(0x80000ec).unwrap());
    assert_eq!(7, ram.read_word(0x80000e8).unwrap());
    assert_eq!(6, ram.read_word(0x80000e4).unwrap());
    assert_eq!(5, ram.read_word(0x80000e0).unwrap());
    assert_eq!(4, ram.read_word(0x80000dc).unwrap());
    assert_eq!(73, cpu.cycles());

    cpu.registers = [255, 255, 255, 255, 255, 255, 255, 255, 255, 255, 255, 255, 255, 0x80000dc, 255, 255];
    //load: r4,r5,r6,r7,r8,r9,r10,r11,lr
    cpu.run_instruction(&mut ram, 0xe8bd4ff0, 0x0);

    let rhs = CPU {
        registers: [255, 255, 255, 255, 4, 5, 6, 7, 8, 9, 10, 11, 255, 0x8000100, 14, 255],
        cycles: 147,
        ..CPU::default()
    };
    assert_eq!(cpu, rhs);
}

#[test]
fn run_push_pop_instructions_pak_ram() {
    let mut ram = SystemMemory::test_pak_ram();
    let mut cpu = CPU {
        registers: [1, 2, 3, 4, 5, 6, 7, 8, 9, 10, 11, 12, 13, 0x8000018, 15, 16],
        ..CPU::default()
    };
    cpu.update_thumb(true);

    //push: r4, r5, r7, lr
    cpu.run_instruction(&mut ram, 0xb5b0, 0x0);

    assert_eq!(15, ram.read_word(0x8000014).unwrap());
    assert_eq!(8, ram.read_word(0x8000010).unwrap());
    assert_eq!(6, ram.read_word(0x800000c).unwrap());
    assert_eq!(5, ram.read_word(0x8000008).unwrap());
    assert_eq!(33, cpu.cycles());

    cpu.registers = [0; 16];
    cpu.registers[SP] = 0x8000008;
    //pop: r4, r5, r7
    cpu.run_instruction(&mut ram, 0xbcb0, 0x0);

    let mut rhs = CPU {
        registers: [0, 0, 0, 0, 5, 6, 0, 8, 0, 0, 0, 0, 0, 0x8000014, 0, 0],
        cycles: 59,
        ..CPU::default()
    };
    rhs.update_thumb(true);
    assert_eq!(cpu, rhs);
}

#[test]
fn run_pop_sp_with_pc() {
    let mut ram = SystemMemory::test();
    let mut cpu = CPU {
        registers: [0; 16],
        ..CPU::default()
    };
    cpu.registers[SP] = 0x10;
    cpu.update_thumb(true);
    let _ = ram.write_word(0x10, 2);
    let _ = ram.write_word(0x14, 3);
    let _ = ram.write_word(0x18, 4);

    //r4, r5, pc
    cpu.run_instruction(&mut ram, 0xbd30, 0x0);

    assert_eq!(cpu.registers[4], 2);
    assert_eq!(cpu.registers[5], 3);
    assert_eq!(cpu.registers[PC], 6);
    assert_eq!(cpu.cycles, 7);
}

#[test]
fn check_cycles_thumb_ldrh() {
    let mut ram = SystemMemory::test_pak_ram();
    let mut cpu = CPU {
        registers: [0; 16],
        ..CPU::default()
    };
    cpu.registers[1] = 0x8000000;
    cpu.update_thumb(true);
    let _ = ram.write_word(0x8000000, 0xaaaaffff);

    cpu.run_instruction(&mut ram, 0x8808, 0x0);

    assert_eq!(cpu.registers[0], 0xffff);
    assert_eq!(cpu.cycles, 7);
}

#[test]
fn run_mov_with_reg_shift_instruction() {
    let mut ram = SystemMemory::test();
    let mut cpu = CPU {
        registers: [0, 0, 0, 0, 12, 0, 1, 0, 0, 8, 0, 0, 0, 0, 0, 0],
        ..CPU::default()
    };

    cpu.run_instruction(&mut ram, 0xe1a06916, 0x0);

    let rhs = CPU {
        registers: [0, 0, 0, 0, 12, 0, 256, 0, 0, 8, 0, 0, 0, 0, 0, 0],
        cycles: 2,
        ..CPU::default()
    };
    assert_eq!(cpu, rhs);
}

#[test]
fn run_mov_with_reg_shift_0_instruction() {
    let mut ram = SystemMemory::test();
    let mut cpu = CPU {
        registers: [0, 0, 0, 0, 12, 0, 1, 0, 0, 0, 0, 0, 0, 0, 0, 0],
        ..CPU::default()
    };

    cpu.run_instruction(&mut ram, 0xe1a06916, 0x0);

    let rhs = CPU {
        registers: [0, 0, 0, 0, 12, 0, 1, 0, 0, 0, 0, 0, 0, 0, 0, 0],
        cycles: 2,
        ..CPU::default()
    };
    assert_eq!(cpu, rhs);
}

#[test]
fn run_mov_with_reg_imm_instruction() {
    let mut ram = SystemMemory::test();
    let mut cpu = CPU {
        registers: [0, 0, 2, 0, 12, 0, 1, 0, 0, 8, 0, 0, 0, 0, 0, 0],
        ..CPU::default()
    };

    cpu.run_instruction(&mut ram, 0xe1a0a0a2, 0x0);

    let rhs = CPU {
        registers: [0, 0, 2, 0, 12, 0, 1, 0, 0, 8, 1, 0, 0, 0, 0, 0],
        cycles: 1,
        ..CPU::default()
    };
    assert_eq!(cpu, rhs);
}

#[test]
fn run_check_mov_cpsr_with_shift_instruction() {
    let mut ram = SystemMemory::test();
    let mut cpu = CPU {
        registers: [0, 0, 2, 0, 0, 0, 1, 0, 0, 8, 0, 3, 0, 0, 0, 0],
        ..CPU::default()
    };

    cpu.run_instruction(&mut ram, 0xe1b0c43b, 0x0);

    let rhs = CPU {
        registers: [0, 0, 2, 0, 0, 0, 1, 0, 0, 8, 0, 3, 3, 0, 0, 0],
        cycles: 2,
        ..CPU::default()
    };
    assert_eq!(cpu, rhs);
}

#[test]
fn run_thumb_cmp_instruction() {
    let mut ram = SystemMemory::test();
    let mut cpu = CPU {
        registers: [0, 0, 0, 0, 0, 0, 0xffffff55, 0, 0, 0, 0, 0, 0, 0, 0, 0],
        ..CPU::default()
    };
    cpu.update_thumb(true);

    cpu.run_instruction(&mut ram, 0x2e00, 0x0);

    let rhs = CPU {
        registers: [0, 0, 0, 0, 0, 0, 0xffffff55, 0, 0, 0, 0, 0, 0, 0, 0, 0],
        cycles: 1,
        cpsr: 0xa000003f,
        ..CPU::default()
    };
    assert_eq!(cpu, rhs);
}

#[test]
fn can_tick_tells_which_instructions_run() {
    let mut ram = SystemMemory::test();
    let mut cpu = CPU::default();
    // ADD r4, r4, r6
    cpu.decode = 0xe0844006;
    assert!(cpu.can_tick(&mut ram));
    // a coprocessor data operation, always executed, is not implemented
    cpu.decode = 0xee000000;
    assert!(!cpu.can_tick(&mut ram));
    // the same under EQ with Z clear does not execute, so the tick completes
    cpu.decode = 0x0e000000;
    assert!(cpu.can_tick(&mut ram));
    // an invalid mode cannot tick
    cpu.cpsr = 0;
    assert!(!cpu.can_tick(&mut ram));
}

#[test]
fn can_tick_checks_pushes_and_pops() {
    let mut ram = SystemMemory::test();
    let mut cpu = CPU::default();
    cpu.update_thumb(true);
    // PUSH {r4, r5, r7, lr} with SP at 0: SP cannot go below 0
    cpu.decode = 0xb5b0;
    cpu.registers[SP] = 0;
    assert!(!cpu.can_tick(&mut ram));
    cpu.registers[SP] = 0x3000100;
    assert!(cpu.can_tick(&mut ram));
}

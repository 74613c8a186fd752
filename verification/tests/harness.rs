use crusty::gba::cpu::CPU;
use crusty::harness::models::{run_test, CpuState, Test, TestMemory, Transaction};
use crusty::harness::report::{Difference, SuiteReport, TestError};
use crusty::memory::Memory;

fn state(r0: u32) -> CpuState {
    let mut registers = [0u32; 16];
    registers[0] = r0;
    CpuState {
        registers,
        r_fiq: [0; 7],
        r_svc: [1, 2],
        r_abt: [0; 2],
        r_irq: [0; 2],
        r_und: [0; 2],
        cpsr: 0x1f,
        spsr: [5, 4, 3, 2, 1],
        pipeline: [0x100, 0x104],
        access: 0,
    }
}

fn transaction(kind: u32, size: u32, addr: usize, data: u32) -> Transaction {
    Transaction { kind, size, addr, data, cycle: 0, access: 0 }
}

#[test]
fn cpu_loads_a_recorded_state() {
    let cpu = CPU::from(state(7));
    assert_eq!(cpu.registers[0], 7);
    assert_eq!(cpu.svc_banked_regs, [1, 2]);
    assert_eq!(cpu.psr, [5, 4, 3, 2, 1, 0]);
    assert_eq!(cpu.inst_addr, 0x100);
    assert_eq!(cpu.cycles(), 0);
}

#[test]
fn odd_opcodes_are_skipped() {
    let t = Test {
        initial: state(0),
        end: state(0),
        transactions: vec![],
        opcode: 0xe1a00001,
        base_addr: 0,
    };
    assert_eq!(run_test(t, 3), Err((false, 3)));
    let t = Test {
        initial: state(0),
        end: state(0),
        transactions: vec![],
        opcode: 0xe1a00000,
        base_addr: 0,
    };
    assert_eq!(run_test(t, 4), Ok((0xe1a00000, 4)));
}

#[test]
fn test_memory_replays_reads_then_writes() {
    let mut mem = TestMemory::new(vec![
        transaction(0, 4, 0x100, 0x11223344),
        transaction(1, 1, 0x205, 0xab),
        transaction(2, 4, 0x300, 0xffff_ffff),
        transaction(0, 3, 0x400, 0x1),
    ]);
    assert_eq!(mem.read_word(0x100), Ok(0x11223344));
    assert_eq!(mem.read_byte(0x205), Ok(0xab));
    assert_eq!(mem.read_word(0x204), Ok(0xab00));
    // the write transaction is not applied when building
    assert_eq!(mem.read_word(0x300), Ok(0));
    // size 3 is ignored
    assert_eq!(mem.read_word(0x400), Ok(0));
    mem.apply_write_transactions(vec![
        transaction(2, 2, 0x302, 0xbeef),
        transaction(0, 4, 0x100, 0),
    ]);
    assert_eq!(mem.read_word(0x300), Ok(0xbeef_0000));
    assert_eq!(mem.read_halfword(0x302), Ok(0xbeef));
    assert_eq!(mem.read_word(0x100), Ok(0x11223344));
    assert_eq!(mem.read_byte_sign_ex(0x303), Ok(0xffff_ffbe));
    assert_eq!(mem.read_halfword_sign_ex(0x302), Ok(0xffff_beef));
    // a read of an untouched word gives 0
    assert_eq!(mem.read_word(0x1000), Ok(0));
}

#[test]
fn test_error_records_differences() {
    let e = TestError::new(0xe1a0);
    assert_eq!(e.opcode, "0x0000e1a0");
    let expected = CPU::from(state(1));
    let mut other = state(2);
    other.cpsr = 0x10;
    other.r_svc = [1, 9];
    let actual = CPU::from(other);
    let e = e.apply_differences(expected, actual);
    let regs = e.register.as_ref().unwrap();
    assert_eq!(regs.len(), 1);
    assert_eq!(regs[&0], Difference::new(2, 1));
    assert_eq!(regs[&0], Difference { actual: 1, expected: 2 });
    let svc = e.svc.as_ref().unwrap();
    assert_eq!(svc[&1], Difference { actual: 2, expected: 9 });
    assert_eq!(e.cpsr, Some(Difference { actual: 0x1f, expected: 0x10 }));
    assert!(e.fiq.is_none() && e.abt.is_none() && e.irq.is_none() && e.und.is_none());
    assert!(e.spsr.is_none());
}

#[test]
fn test_error_tables_grow() {
    let mut e = TestError::new(1);
    e.add_fiq_difference(3, Difference::new(1, 2));
    e.add_fiq_difference(4, Difference::new(5, 6));
    e.add_fiq_difference(3, Difference::new(7, 8));
    let fiq = e.fiq.as_ref().unwrap();
    assert_eq!(fiq.len(), 2);
    assert_eq!(fiq[&3], Difference { actual: 8, expected: 7 });
    e.add_cpsr_difference(Difference::new(1, 1));
    e.add_cpsr_difference(Difference::new(2, 2));
    assert_eq!(e.cpsr, Some(Difference { actual: 2, expected: 2 }));
}

#[test]
fn suite_report_counts() {
    let mut report = SuiteReport::new("arm.json".to_string());
    report.add_success();
    report.add_skipped();
    report.add_failed(7, TestError::new(7));
    report.add_success();
    assert_eq!((report.total, report.passed, report.failed, report.skipped), (3, 2, 1, 1));
    assert!(report.failed_tests.contains_key(&7));
    assert_eq!(report.path, "arm.json");
}

#[test]
fn test_error_tables_start_on_first_difference() {
    let mut e = TestError::new(0);
    e.add_register_difference(1, Difference::new(1, 2));
    e.add_svc_difference(0, Difference::new(3, 4));
    e.add_abt_difference(1, Difference::new(5, 6));
    e.add_irq_difference(0, Difference::new(7, 8));
    e.add_und_difference(1, Difference::new(9, 10));
    e.add_spsr_difference(4, Difference::new(11, 12));
    assert_eq!(e.register.as_ref().unwrap()[&1], Difference { actual: 2, expected: 1 });
    assert_eq!(e.svc.as_ref().unwrap()[&0], Difference { actual: 4, expected: 3 });
    assert_eq!(e.abt.as_ref().unwrap()[&1], Difference { actual: 6, expected: 5 });
    assert_eq!(e.irq.as_ref().unwrap()[&0], Difference { actual: 8, expected: 7 });
    assert_eq!(e.und.as_ref().unwrap()[&1], Difference { actual: 10, expected: 9 });
    assert_eq!(e.spsr.as_ref().unwrap()[&4], Difference { actual: 12, expected: 11 });
    assert!(e.fiq.is_none());
}

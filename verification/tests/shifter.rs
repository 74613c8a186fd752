use crusty::gba::cpu::CPU;
use crusty::utils::shifter::CpuShifter;

#[test]
fn ror_32_1() {
    let cpu = CPU::default();
    let (res, carry) = cpu.ror_with_carry(0xa2cef820, 32);
    assert_eq!(res, 0xa2cef820);
    assert!(carry);
}

#[test]
fn lsl_1() {
    let mut cpu = CPU::default();
    cpu.set_v_status(true);
    let (res, carry) = cpu.shl_with_carry(0xbfbfc0cf, 0xb);
    assert_eq!(res, 0xfe067800);
    assert!(carry);
}

#[test]
fn lsr_1() {
    let mut cpu = CPU::default();
    cpu.set_v_status(true);
    let (res, carry) = cpu.shr_with_carry(0xb220b2e9, 0x21);
    assert_eq!(res, 0x0);
    assert!(!carry);
}

#[test]
fn shifts_by_zero_keep_value_and_carry() {
    let mut cpu = CPU::default();
    cpu.update_cpsr(1, false, true);
    assert_eq!(cpu.shl_with_carry(0x1234, 0), (0x1234, true));
    assert_eq!(cpu.shr_with_carry(0x1234, 0), (0x1234, true));
    assert_eq!(cpu.asr_with_carry(0x1234, 0), (0x1234, true));
    assert_eq!(cpu.ror_with_carry(0x1234, 0), (0x1234, true));
}

#[test]
fn shift_edge_amounts() {
    let cpu = CPU::default();
    assert_eq!(cpu.shl_with_carry(0x8000_0001, 32), (0, true));
    assert_eq!(cpu.shl_with_carry(0x8000_0001, 33), (0, false));
    assert_eq!(cpu.shr_with_carry(0x8000_0001, 32), (0, true));
    assert_eq!(cpu.asr_with_carry(0x8000_0000, 40), (0xffff_ffff, true));
    assert_eq!(cpu.asr_with_carry(0x8000_0000, 4), (0xf800_0000, false));
    assert_eq!(cpu.ror_with_carry(0x0000_0011, 4), (0x1000_0001, false));
    assert_eq!(cpu.ror_with_carry(0x0000_0011, 36), (0x1000_0001, false));
}

#[test]
fn rrx_moves_carry_into_bit_31() {
    let mut cpu = CPU::default();
    cpu.update_cpsr(1, false, true);
    assert_eq!(cpu.rrx_with_carry(0x8000_0003), (0x8000_0001, true));
    let cpu = CPU::default();
    assert_eq!(cpu.rrx_with_carry(0x0000_0002), (0, false));
}

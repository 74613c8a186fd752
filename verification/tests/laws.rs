use crusty::gba::cpu::{CPU, SP};
use crusty::gba::debugger::{DebugSession, DebuggerCommand};
use crusty::gba::system::SystemMemory;
use crusty::gba::Conditional;
use crusty::memory::MemoryError;

#[test]
fn opposite_conditions_disagree() {
    for cpsr in [0x1fu32, 0x4000_001f, 0x2000_001f, 0x8000_001f, 0x1000_001f, 0xf000_001f] {
        assert_ne!(Conditional::EQ.should_run(cpsr), Conditional::NE.should_run(cpsr));
        assert_ne!(Conditional::CS.should_run(cpsr), Conditional::CC.should_run(cpsr));
        assert_ne!(Conditional::MI.should_run(cpsr), Conditional::PL.should_run(cpsr));
        assert_ne!(Conditional::VS.should_run(cpsr), Conditional::VC.should_run(cpsr));
        assert_ne!(Conditional::GT.should_run(cpsr), Conditional::LE.should_run(cpsr));
        assert!(Conditional::AL.should_run(cpsr));
        assert!(!Conditional::NV.should_run(cpsr));
    }
}

#[test]
fn registers_read_back_per_mode() {
    let mut cpu = CPU::default();
    cpu.set_register(SP, 0x100);
    assert_eq!(cpu.get_register(SP), 0x100);
    // in supervisor mode SP is banked
    cpu.cpsr = 0x13;
    assert_eq!(cpu.get_register(SP), 0);
    cpu.set_register(SP, 0x200);
    assert_eq!(cpu.get_register(SP), 0x200);
    assert_eq!(cpu.get_register(0), 0);
    cpu.cpsr = 0x1f;
    assert_eq!(cpu.get_register(SP), 0x100);
}

#[test]
fn memory_reads_back_writes() {
    let mut ram = SystemMemory::default();
    ram.write_word(0x3000010, 0x1234_5678).unwrap();
    assert_eq!(ram.read_word(0x3000010), Ok(0x1234_5678));
    ram.write_halfword(0x3000012, 0xabcd).unwrap();
    assert_eq!(ram.read_halfword(0x3000012), Ok(0xabcd));
    assert_eq!(ram.read_halfword(0x3000010), Ok(0x5678));
    ram.write_byte(0x3000011, 0xef).unwrap();
    assert_eq!(ram.read_byte(0x3000011), Ok(0xef));
    assert_eq!(ram.read_word(0x3000010), Ok(0xabcd_ef78));
    // the neighbouring word is untouched
    assert_eq!(ram.read_word(0x3000014), Ok(0));
    // a write outside every region fails as the read does
    assert_eq!(ram.write_word(0x1000000, 1), Err(MemoryError::MapNotFound(0x1000000)));
    assert_eq!(ram.read_word(0x1000000), Err(MemoryError::MapNotFound(0x1000000)));
}

#[test]
fn byte_writes_keep_the_other_bytes() {
    let mut ram = SystemMemory::default();
    ram.write_word(0x3000020, 0x1122_3344).unwrap();
    ram.write_byte(0x3000022, 0x1ab).unwrap();
    assert_eq!(ram.read_byte(0x3000022), Ok(0xab));
    assert_eq!(ram.read_byte(0x3000020), Ok(0x44));
    assert_eq!(ram.read_byte(0x3000021), Ok(0x33));
    assert_eq!(ram.read_byte(0x3000023), Ok(0x11));
    assert_eq!(ram.read_word(0x3000020), Ok(0x11ab_3344));
}

#[test]
fn break_points_toggle_back() {
    let mut session = DebugSession::new();
    session.toggle_break_point(0x40);
    session.toggle_break_point(0x80);
    session.toggle_break_point(0x40);
    assert!(!session.is_break_point(0x40));
    assert!(session.is_break_point(0x80));
}

#[test]
fn short_and_long_names_agree() {
    assert_eq!(DebuggerCommand::parse("r 10"), DebuggerCommand::parse("read 10"));
    assert_eq!(DebuggerCommand::parse("c 3"), DebuggerCommand::parse("continue 3"));
    assert_eq!(DebuggerCommand::parse("l info"), DebuggerCommand::parse("log_level info"));
    assert_eq!(DebuggerCommand::parse("q"), DebuggerCommand::parse("quit"));
}

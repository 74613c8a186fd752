use crusty::gba::arm::{
    decode_as_arm, is_branch, is_mrs_op, AddressingMode3, ArmOperation, BranchOp,
    DataProcessingOp, DataProcessingType, HalfwordDataOp, Operand, PsrTransferOp,
    PsrTransferType, ShiftType, SingleDataTfx,
};

#[test]
fn arm_test_branch_check() {
    let inst: u32 = 0b11101010000000000000000000011000;
    let branch = is_branch(inst);
    assert_eq!(branch, true);
}

#[test]
fn arm_test_branch_decode() {
    let inst: u32 = 0b11101010000000000000000000011000;
    let op = BranchOp::from(inst);
    let op2 = BranchOp {
        l: false,
        offset: 0b11000,
    };

    assert_eq!(op, op2);
}

#[test]
fn test_mrs_op_check() {
    let inst: u32 = 0xe14fc000;
    let is_mrs = is_mrs_op(inst);
    assert_eq!(is_mrs, true);
}

#[test]
fn test_strb_decode() {
    let inst: u32 = 0xe5cc3301;
    let op = SingleDataTfx::from(inst);
    let op2 = SingleDataTfx {
        i: false,
        p: true,
        u: true,
        b: true,
        w: false,
        l: false,
        rn: 12,
        rd: 3,
        offset: 0x301,
    };
    assert_eq!(op, op2);
}

#[test]
fn arm_test_strh_decode() {
    let inst: u32 = 0xe08180b3;
    let op = HalfwordDataOp::from(inst);
    let op2 = HalfwordDataOp {
        p: false,
        u: true,
        w: false,
        l: false,
        h: true,
        s: false,
        rn: 1,
        rd: 8,
        mode: AddressingMode3::Reg(3),
    };
    assert_eq!(op, op2);
}

#[test]
fn test_msreq_decode() {
    let inst: u32 = 0x0129f00c;
    let op = PsrTransferOp::from(inst);
    let op2 = PsrTransferOp {
        i: false,
        imm: 12,
        bit_flags_only: false,
        p: false,
        rd: 15,
        rm: 12,
        rotate: 0,
        op: PsrTransferType::MSR,
    };
    assert_eq!(op, op2);
}

#[test]
fn test_msreq_decode_2() {
    let inst: u32 = 0x010fc000;
    let op = PsrTransferOp::from(inst);
    let op2 = PsrTransferOp {
        i: false,
        imm: 0,
        bit_flags_only: false,
        p: false,
        rd: 12,
        rm: 0,
        rotate: 0,
        op: PsrTransferType::MRS,
    };
    assert_eq!(op, op2);
}

#[test]
fn test_teq_decode() {
    let inst: u32 = 0xe1300003;
    let op = DataProcessingOp::from(inst);
    let op2 = DataProcessingOp {
        opcode: DataProcessingType::Teq,
        i: false,
        operand: Operand::ShiftWithReg(0, 3, ShiftType::Lsr),
        s: true,
        rn: 0,
        rd: 0,
    };
    assert_eq!(op, op2);
}

#[test]
fn other_register_operands_keep_their_shift() {
    // A CMP with the same register operand, and a TEQ with a shifted one, read the fields.
    let cmp = DataProcessingOp::from(0xe1500003);
    assert_eq!(cmp.operand, Operand::ShiftImm(3, 0, ShiftType::Lsl));
    let teq_shifted = DataProcessingOp::from(0xe1300083);
    assert_eq!(teq_shifted.operand, Operand::ShiftImm(3, 1, ShiftType::Lsl));
}

#[test]
fn branch_offsets_are_sign_extended() {
    assert_eq!(BranchOp { l: false, offset: 0x000010 }.get_offset(), 0x40);
    assert_eq!(BranchOp { l: true, offset: 0xfffffe }.get_offset(), 0xffff_fff8);
    assert_eq!(BranchOp::from(0xea000018).get_offset(), 0x60);
    assert_eq!(BranchOp::from(0xeafffffe).get_offset(), 0xffff_fff8);
    assert_eq!(BranchOp::from(0xea800000).get_offset(), 0xfe00_0000);
    assert_eq!(BranchOp::from(0xea7fffff).get_offset(), 0x01ff_fffc);
}

#[test]
fn decode_picks_the_first_matching_class() {
    let inst: u32 = 0xe0844006;
    assert_eq!(decode_as_arm(inst), Ok(ArmOperation::DataProcessing(DataProcessingOp::from(inst))));
    let mul: u32 = 0xe0000291;
    assert!(matches!(decode_as_arm(mul), Ok(ArmOperation::Multiply(_))));
    let bx: u32 = 0xe12fff1e;
    assert!(matches!(decode_as_arm(bx), Ok(ArmOperation::BranchExchange(_))));
    let swi: u32 = 0xef000000;
    assert!(matches!(decode_as_arm(swi), Ok(ArmOperation::SoftwareInterrupt(_))));
    assert!(matches!(decode_as_arm(0xe14fc000), Ok(ArmOperation::PsrTransfer(_))));
}

#[test]
fn operand_decoding() {
    assert_eq!(Operand::from(0x0200_0f01), Operand::Imm(1, 30, ShiftType::Ror));
    assert_eq!(Operand::from(0x0000_0916), Operand::ShiftWithReg(6, 9, ShiftType::Lsl));
    assert_eq!(Operand::from(0x0000_00a2), Operand::ShiftImm(2, 1, ShiftType::Lsr));
}

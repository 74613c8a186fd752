use crusty::gba::thumb::{
    decode_as_thumb, AddSubtractOp, HiRegOp, LoadStoreHalfWordOp, LoadStoreImmOffsetOp,
    LoadStoreRegOffsetOp, MathImmOp, MoveShiftedRegisterOp, PcRelativeLoadOp, PushPopRegOp,
    ThumbOperation, UnconditionalBranchOp, ConditionalBranchOp,
};
use crusty::gba::error::InstructionDecodeError;
use crusty::gba::Conditional;

#[test]
fn test_lsl_decode() {
    let inst: u32 = 0x0636;
    let op = MoveShiftedRegisterOp::from(inst);
    assert_eq!(op, MoveShiftedRegisterOp { op: 0, rd: 6, rs: 6, offset: 0x18 });
}

#[test]
fn test_add_reg_variant() {
    let inst: u32 = 0x19ad;
    let op = AddSubtractOp::from(inst);
    assert_eq!(op, AddSubtractOp { rd: 5, rs: 5, rn: 6, i: false, op: false, offset: 6 });
}

#[test]
fn test_sub_imm_variant() {
    let inst: u32 = 0x1e68;
    let op = AddSubtractOp::from(inst);
    assert_eq!(op, AddSubtractOp { rd: 0, rs: 5, rn: 1, i: true, op: true, offset: 1 });
}

#[test]
fn test_add_imm_variant() {
    let inst: u32 = 0x1c22;
    let op = AddSubtractOp::from(inst);
    assert_eq!(op, AddSubtractOp { rd: 2, rs: 4, offset: 0, rn: 0, i: true, op: false });
}

#[test]
fn test_mov_imm_variant() {
    let inst: u32 = 0x2400;
    let op = MathImmOp::from(inst);
    assert_eq!(op, MathImmOp { rd: 4, offset: 0, op: 0 });
}

#[test]
fn test_add_byte_imm_vairant() {
    let inst: u32 = 0x3210;
    let op = MathImmOp::from(inst);
    assert_eq!(op, MathImmOp { rd: 2, offset: 0x10, op: 2 });
}

#[test]
fn test_bx_variant_one() {
    let inst: u32 = 0x4770;
    let op = HiRegOp::from(inst);
    assert_eq!(op, HiRegOp { h1: false, h2: true, rd: 0, rs: 14, op: 3 });
}

#[test]
fn test_bx_variant_two() {
    let inst: u32 = 0x4718;
    let op = HiRegOp::from(inst);
    assert_eq!(op, HiRegOp { h1: false, h2: false, rd: 0, rs: 3, op: 3 });
}

#[test]
fn test_ldr_decode() {
    let inst: u32 = 0x49f8;
    let op = PcRelativeLoadOp::from(inst);
    assert_eq!(op, PcRelativeLoadOp { rd: 1, word: 0xf8 });
}

#[test]
fn test_ldrb_decode() {
    let inst: u32 = 0x5d82;
    let op = LoadStoreRegOffsetOp::from(inst);
    assert_eq!(op, LoadStoreRegOffsetOp { l: true, b: true, rd: 2, rb: 0, ro: 6 });
}

#[test]
fn thumb_test_strh_decode() {
    let inst: u32 = 0x81bb;
    let op = LoadStoreHalfWordOp::from(inst);
    assert_eq!(op, LoadStoreHalfWordOp { l: false, offset: 0xc, rb: 7, rd: 3 });
}

#[test]
fn test_b_decode() {
    let inst: u32 = 0xe3a0;
    let op = UnconditionalBranchOp::from(inst);
    assert_eq!(op, UnconditionalBranchOp { offset: 0x740 });
}

#[test]
fn test_push_decode() {
    let inst: u32 = 0xb578;
    let op = PushPopRegOp::from(inst);
    assert_eq!(op, PushPopRegOp { l: false, r: true, rlist: 0b1111000 });
}

#[test]
fn test_strh_decode_two() {
    let inst: u32 = 0x7090;
    let op = LoadStoreImmOffsetOp::from(inst);
    assert_eq!(op, LoadStoreImmOffsetOp { offset: 2, rd: 0, rb: 2, l: false, b: true });
}

#[test]
fn conditional_branch_rejects_condition_14() {
    assert_eq!(
        ConditionalBranchOp::try_from(0xde05),
        Err(InstructionDecodeError::ConditionalNotValid { value: 0xde05, cond: 14 })
    );
    assert_eq!(
        ConditionalBranchOp::try_from(0xd105),
        Ok(ConditionalBranchOp { cond: Conditional::NE, offset: 5 })
    );
    assert!(matches!(decode_as_thumb(0xdf01), Ok(ThumbOperation::SoftwareInterrupt(_))));
    assert_eq!(decode_as_thumb(0xde05), Err(InstructionDecodeError::ConditionalNotValid { value: 0xde05, cond: 14 }));
    assert_eq!(decode_as_thumb(0xe800), Err(InstructionDecodeError::NoMatchingOperation(0xe800)));
}

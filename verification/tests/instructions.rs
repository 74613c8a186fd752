use crusty::gba::instructions::{
    is_branch, is_data_processing, BranchOp, Conditional, DataProcessingOp, MultiplyOp, Opcode,
};

#[test]
fn instructions_test_branch_check() {
    let inst: u32 = 0b11101010000000000000000000011000;
    let branch = is_branch(inst);
    assert_eq!(branch, true);
}

#[test]
fn instructions_test_branch_decode() {
    let inst: u32 = 0b11101010000000000000000000011000;
    let op = Opcode::from(inst);
    let op2 = Opcode::B(
        Conditional::AL,
        BranchOp {
            l: false,
            offset: 0b11000,
        },
    );
    assert_eq!(op, op2);
}

#[test]
fn data_processing_decode_and_text() {
    // ADDS r4, r4, #6 under NE
    let inst: u32 = 0x12944006;
    assert!(is_data_processing(inst));
    let op = Opcode::from(inst);
    let expected = Opcode::ADD(
        Conditional::NE,
        DataProcessingOp {
            s: true,
            rn: 4,
            rd: 4,
            operand: 0x006,
        },
    );
    assert_eq!(op, expected);
    assert_eq!(op.string_repr(), "ADDNE true r4 r4, <0x6>");
}

#[test]
fn multiply_accumulate_text() {
    let op = Opcode::from(0xe0230291);
    assert_eq!(
        op,
        Opcode::MLA(
            Conditional::AL,
            MultiplyOp {
                a: true,
                s: false,
                rd: 3,
                rn: 0,
                rs: 2,
                rm: 1,
            }
        )
    );
    assert_eq!(op.string_repr(), "MLA false r3, r1, r2, r0");
}

#[test]
fn branch_text_and_undefined() {
    let b = Opcode::from(0xeb0000ff);
    assert_eq!(b.string_repr(), "BL +0xff");
    let undef = Opcode::from(0xe1000000);
    assert_eq!(undef, Opcode::Undef(0xe1000000));
    assert_eq!(undef.string_repr(), "undefined");
    assert_eq!(Conditional::from(0xe0000000).as_str(), "");
    assert_eq!(Conditional::from(0x00000000).as_str(), "EQ");
}

#[test]
fn undefined_space_is_recognised() {
    assert!(crusty::gba::instructions::is_undefined(0xe7f000f0));
    assert!(!crusty::gba::instructions::is_undefined(0xe5900000));
}

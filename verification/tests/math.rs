use crusty::utils::math::ArmCalculations;

#[test]
fn test_arm_subtract_1() {
    let lhs: u32 = 0x8173d9e8;
    let rhs: u32 = 0x2b6e0a2c;

    let (res, c, v) = lhs.arm_sub(rhs);
    let n = res >= 0x80000000;
    let z = res == 0;

    assert!(c);
    assert!(v);
    assert!(!z);
    assert!(!n);
}

#[test]
fn test_arm_subtract_2() {
    let lhs: u32 = 0x8173d9e8;
    let rhs: u32 = 0x2b6e0a2c;

    let (intermediate, _i_carry) = lhs.overflowing_add(!rhs);
    let (res, _carry, _) = intermediate.arm_add(1);
    let lhs_sign = lhs >= 0x80000000;
    let rhs_sign = rhs >= 0x80000000;
    let res_sign = res >= 0x80000000;

    let v = (lhs_sign ^ rhs_sign) == (rhs_sign == res_sign);
    let v_other = ((lhs ^ rhs) & (lhs ^ res)) >= 0x80000000;
    assert_eq!(v, v_other)
}

#[test]
fn test_arm_add_1() {
    let lhs: u32 = 0xcd717a79;
    let rhs: u32 = 0xba4eb81e;

    let (res, _c, _v) = lhs.arm_add(rhs);
    assert_eq!(res, 0x87c03297);
}

#[test]
fn arm_add_reports_carry_and_overflow() {
    assert_eq!(0xffff_ffffu32.arm_add(1), (0, true, false));
    assert_eq!(0x7fff_ffffu32.arm_add(1), (0x8000_0000, false, true));
    assert_eq!(0x8000_0000u32.arm_add(0x8000_0000), (0, true, true));
    assert_eq!(2u32.arm_add(3), (5, false, false));
}

#[test]
fn arm_sub_carry_is_no_borrow() {
    assert_eq!(5u32.arm_sub(3), (2, true, false));
    assert_eq!(3u32.arm_sub(5), (0xffff_fffe, false, false));
    assert_eq!(0x8000_0000u32.arm_sub(1), (0x7fff_ffff, true, true));
    assert_eq!(7u32.arm_sub(7), (0, true, false));
}

#[test]
fn arm_add_and_sub_with_carry_in() {
    assert_eq!(0xffff_fffeu32.arm_add_carry(1, true), (0, true, false));
    assert_eq!(0xffff_fffeu32.arm_add_carry(1, false), (0xffff_ffff, false, false));
    assert_eq!(5u32.arm_sub_carry(3, true), (2, true, false));
    assert_eq!(5u32.arm_sub_carry(3, false), (1, true, false));
    assert_eq!(3u32.arm_sub_carry(3, false), (0xffff_ffff, false, false));
}

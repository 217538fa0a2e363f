//! Tri-state byte container behaviour: arithmetic and bitwise operations
//! against host integer arithmetic, unknown propagation, conversions and
//! comparisons.

use rv32sim::bytes::Bytes;

/// A small deterministic generator standing in for arbitrary operand
/// draws; the constants are the common 64-bit linear congruential mix.
fn next(state: &mut u64) -> u64 {
    *state = state
        .wrapping_mul(6364136223846793005)
        .wrapping_add(1442695040888963407);
    *state >> 16
}

#[test]
fn test_known() {
    let mut s: u64 = 1;
    for _i in 0..u8::MAX {
        for _j in 0..u8::MAX {
            let a = next(&mut s) as u16;
            let b = next(&mut s) as u16;
            let lhs = Bytes::from_u16(a);
            let rhs = Bytes::from_u16(b);

            assert_eq!(lhs.add(&rhs), Bytes::from_u16(a.wrapping_add(b)));
            assert_eq!(lhs.sub(&rhs), Bytes::from_u16(a.wrapping_sub(b)));
            assert_eq!(lhs.and(&rhs), Bytes::from_u16(a & b));
            assert_eq!(lhs.or(&rhs), Bytes::from_u16(a | b));
            assert_eq!(lhs.xor(&rhs), Bytes::from_u16(a ^ b));
            assert_eq!(lhs.not(), Bytes::from_u16(!a));
        }
    }
}

#[test]
fn test_known_assign() {
    let mut s: u64 = 2;
    for _i in 0..u8::MAX {
        for _j in 0..u8::MAX {
            let a = next(&mut s) as u16;
            let b = next(&mut s) as u16;
            let lhs = Bytes::from_u16(a);
            let rhs = Bytes::from_u16(b);

            let mut tmp = lhs.clone();
            tmp = tmp.add(&rhs);
            assert_eq!(tmp, Bytes::from_u16(a.wrapping_add(b)));

            let mut tmp = lhs.clone();
            tmp = tmp.sub(&rhs);
            assert_eq!(tmp, Bytes::from_u16(a.wrapping_sub(b)));

            let mut tmp = lhs.clone();
            tmp = tmp.and(&rhs);
            assert_eq!(tmp, Bytes::from_u16(a & b));

            let mut tmp = lhs.clone();
            tmp = tmp.or(&rhs);
            assert_eq!(tmp, Bytes::from_u16(a | b));

            let mut tmp = lhs.clone();
            tmp = tmp.xor(&rhs);
            assert_eq!(tmp, Bytes::from_u16(a ^ b));
        }
    }
}

#[test]
fn test_unknown() {
    for i in 0..(u16::MAX as u32) + 1 {
        let lhs = Bytes::from_u16(i as u16);
        let rhs = Bytes::unknown(2);

        assert_eq!(lhs.add(&rhs), Bytes::unknown(2));
        assert_eq!(lhs.sub(&rhs), Bytes::unknown(2));
        if !lhs.to_display_string().contains("00") {
            assert_eq!(lhs.and(&rhs), Bytes::unknown(2));
        }
        if !lhs.to_display_string().contains("FF") {
            assert_eq!(lhs.or(&rhs), Bytes::unknown(2));
            assert_eq!(lhs.xor(&rhs), Bytes::unknown(2));
        }
        assert_eq!(rhs.not(), Bytes::unknown(2));
    }
}

#[test]
fn test_left_smaller() {
    let mut s: u64 = 3;
    for _i in 0..u16::MAX {
        let a = next(&mut s) as u16;
        let b = next(&mut s) as u32;
        let lhs = Bytes::from_u16(a);
        let rhs = Bytes::from_u32(b);

        assert_eq!(lhs.add(&rhs), Bytes::from_u16(a.wrapping_add(b as u16)));
        assert_eq!(lhs.sub(&rhs), Bytes::from_u16(a.wrapping_sub(b as u16)));
        assert_eq!(lhs.and(&rhs), Bytes::from_u16(a & b as u16));
        assert_eq!(lhs.or(&rhs), Bytes::from_u16(a | b as u16));
        assert_eq!(lhs.xor(&rhs), Bytes::from_u16(a ^ b as u16));
        assert_eq!(lhs.not(), Bytes::from_u16(!a));
    }
}

#[test]
fn test_right_smaller() {
    let mut s: u64 = 4;
    for _i in 0..u16::MAX {
        let a = next(&mut s) as u32;
        let b = next(&mut s) as u16;
        let lhs = Bytes::from_u32(a);
        let rhs = Bytes::from_u16(b);

        assert_eq!(lhs.add(&rhs), Bytes::from_u32(a.wrapping_add(b as u32)));
        assert_eq!(lhs.sub(&rhs), Bytes::from_u32(a.wrapping_sub(b as u32)));
        assert_eq!(lhs.and(&rhs), Bytes::from_u32(a & b as u32));
        assert_eq!(lhs.or(&rhs), Bytes::from_u32(a | b as u32));
        assert_eq!(lhs.xor(&rhs), Bytes::from_u32(a ^ b as u32));
        assert_eq!(lhs.not(), Bytes::from_u32(!a));
    }
}

#[test]
fn test_and_reset() {
    for i in 0..(u16::MAX as u32) + 1 {
        let lhs = Bytes::from_u16(i as u16);
        let rhs = Bytes::from_u16(0u16);
        assert_eq!(lhs.and(&rhs), Bytes::from_u16(0u16));
    }
}

#[test]
fn test_or_overwrite() {
    for i in 0..(u16::MAX as u32) + 1 {
        let lhs = Bytes::from_u16(i as u16);
        let rhs = Bytes::from_u16(0xFFFFu16);
        assert_eq!(lhs.or(&rhs), Bytes::from_u16(0xFFFFu16));
    }
}

#[test]
fn test_xor_flip() {
    for i in 0..(u16::MAX as u32) + 1 {
        let lhs = Bytes::from_u16(i as u16);
        let rhs = Bytes::from_u16(0xFFFFu16);
        assert_eq!(lhs.xor(&rhs), lhs.not());
    }
}

#[test]
fn test_shl() {
    let mut s: u64 = 5;
    for _i in 0..u16::MAX {
        let a = (next(&mut s) as u128) << 64 | next(&mut s) as u128;
        let b = (next(&mut s) as u8).min(127);
        let lhs = Bytes::from_u128(a);
        let rhs = Bytes::from_u8(b);

        assert_eq!(lhs.shl(&rhs), Bytes::from_u128(a << b));
    }
}

#[test]
fn test_shr() {
    let mut s: u64 = 6;
    for _i in 0..u16::MAX {
        let a = (next(&mut s) as u128) << 64 | next(&mut s) as u128;
        let b = (next(&mut s) as u8).min(127);
        let lhs = Bytes::from_u128(a);
        let rhs = Bytes::from_u8(b);

        assert_eq!(lhs.shr(&rhs), Bytes::from_u128(a >> b));
    }
}

#[test]
fn test_shra() {
    let mut s: u64 = 7;
    for _i in 0..u16::MAX {
        let a = (next(&mut s) as u128) << 64 | next(&mut s) as u128;
        let b = (next(&mut s) as u8).min(127);
        let lhs = Bytes::from_u128(a);
        let rhs = Bytes::from_u8(b);

        assert_eq!(lhs.shra(&rhs), Bytes::from_u128(((a as i128) >> b) as u128));
    }
}

#[test]
fn test_from_into() {
    let mut s: u64 = 8;
    for _i in 0..u8::MAX {
        let a = next(&mut s) as u8;
        let b = next(&mut s) as u16;
        let c = next(&mut s) as u32;
        let d = next(&mut s);
        let e = (next(&mut s) as u128) << 64 | next(&mut s) as u128;

        assert_eq!(Bytes::from_u8(a).to_u8(), Some(a));
        assert_eq!(Bytes::from_u16(b).to_u16(), Some(b));
        assert_eq!(Bytes::from_u32(c).to_u32(), Some(c));
        assert_eq!(Bytes::from_u64(d).to_u64(), Some(d));
        assert_eq!(Bytes::from_u128(e).to_u128(), Some(e));
    }
}

#[test]
fn test_from_into_unknown() {
    assert_eq!(Bytes::unknown(1).to_u8(), None);
    assert_eq!(Bytes::unknown(2).to_u16(), None);
    assert_eq!(Bytes::unknown(4).to_u32(), None);
    assert_eq!(Bytes::unknown(8).to_u64(), None);
    assert_eq!(Bytes::unknown(16).to_u128(), None);
}

#[test]
fn test_index() {
    assert_eq!(Bytes::unknown(1).get(0), None);
    assert_eq!(Bytes::from_u8(1).get(0), Some(1u8));
    assert_eq!(Bytes::from_u16(0xFF00).get(1), Some(0xFFu8));
}

#[test]
fn test_cmp() {
    let mut s: u64 = 9;
    for _i in 0..u16::MAX {
        let a = next(&mut s) as u32;
        let b = next(&mut s) as u32;
        let lhs = Bytes::from_u32(a);
        let rhs = Bytes::from_u32(b);

        assert_eq!(lhs.byte_cmp(&rhs), a.cmp(&b));
    }
}

#[test]
fn test_signed_cmp() {
    let mut s: u64 = 10;
    for _i in 0..u16::MAX {
        let a = next(&mut s) as u32;
        let b = next(&mut s) as u32;
        let lhs = Bytes::from_u32(a);
        let rhs = Bytes::from_u32(b);

        assert_eq!(lhs.signed_cmp(&rhs), (a as i32).cmp(&(b as i32)));
    }
    assert_eq!(
        Bytes::from_u32(0xFFFF_FFFF).signed_cmp(&Bytes::from_u32(1)),
        std::cmp::Ordering::Less
    );
    assert_eq!(
        Bytes::from_u32(0x7FFF_FFFF).signed_cmp(&Bytes::from_u32(0x8000_0000)),
        std::cmp::Ordering::Greater
    );
    assert_eq!(
        Bytes::unknown(4).signed_cmp(&Bytes::from_u32(5)),
        std::cmp::Ordering::Equal
    );
}

#[test]
fn test_unknown_compare_equal() {
    let known = Bytes::from_u32(7);
    let unknown = Bytes::unknown(4);
    assert_eq!(known.byte_cmp(&unknown), std::cmp::Ordering::Equal);
    assert_eq!(unknown.byte_cmp(&known), std::cmp::Ordering::Equal);
}

#[test]
fn test_shift_unknown_absorbs() {
    let known = Bytes::from_u32(0x1234);
    let unknown = Bytes::unknown(4);
    assert_eq!(known.shl(&unknown), Bytes::unknown(4));
    assert_eq!(unknown.shr(&Bytes::from_u8(1)), Bytes::unknown(4));
    assert_eq!(unknown.shra(&Bytes::from_u8(1)), Bytes::unknown(4));
}

#[test]
fn test_shift_saturates() {
    let v = Bytes::from_u16(0xABCD);
    assert_eq!(v.shl(&Bytes::from_u8(16)), Bytes::from_u16(0));
    assert_eq!(v.shr(&Bytes::from_u8(16)), Bytes::from_u16(0));
    assert_eq!(v.shra(&Bytes::from_u8(16)), Bytes::from_u16(0xFFFF));
    assert_eq!(
        Bytes::from_u16(0x7BCD).shra(&Bytes::from_u8(16)),
        Bytes::from_u16(0)
    );
}

#[test]
fn test_partial_unknown_bitwise() {
    // A known zero byte absorbs an unknown one in AND; known all-ones
    // absorb in OR.
    let mixed = Bytes {
        data: vec![None, Some(0x0F)],
    };
    let zeros = Bytes::from_u16(0);
    let ones = Bytes::from_u16(0xFFFF);
    assert_eq!(mixed.and(&zeros), Bytes::from_u16(0));
    assert_eq!(mixed.or(&ones), Bytes::from_u16(0xFFFF));
    assert_eq!(
        mixed.xor(&ones),
        Bytes {
            data: vec![None, Some(0xF0)],
        }
    );
}

#[test]
fn test_display_string() {
    assert_eq!(Bytes::from_u16(0xAB01).to_display_string(), "0xAB01");
    assert_eq!(Bytes::unknown(2).to_display_string(), "0xXXXX");
    let mixed = Bytes {
        data: vec![None, Some(0x0F)],
    };
    assert_eq!(mixed.to_display_string(), "0x0FXX");
    assert_eq!(Bytes::from_u32(0xDEADBEEF).to_display_string(), "0xDEADBEEF");
}

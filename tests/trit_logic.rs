use fuzzy_trit::{
    byte_and, byte_from_u8, byte_full_add, byte_not, byte_or, full_add, half_adder, Trit,
    TritString, HALF, ONE,
};

const QUARTER: u32 = 0x4000_0000;
const THREE_QUARTERS: u32 = 0xC000_0000;

fn crisp(b: bool) -> Trit {
    Trit::from_boolean(b)
}

fn samples() -> Vec<Trit> {
    vec![
        Trit::T,
        Trit::F,
        Trit::Z(1),
        Trit::Z(QUARTER),
        Trit::Z(HALF as u32),
        Trit::Z(THREE_QUARTERS),
        Trit::Z(0x1234_5678),
        Trit::Z(u32::MAX),
    ]
}

#[test]
fn from_boolean_gives_crisp_values() {
    assert_eq!(Trit::from_boolean(true), Trit::T);
    assert_eq!(Trit::from_boolean(false), Trit::F);
}

#[test]
fn crisp_truth_tables() {
    for a in [false, true] {
        assert_eq!(crisp(a).not(), crisp(!a));
        for b in [false, true] {
            assert_eq!(crisp(a).and(&crisp(b)), crisp(a && b));
            assert_eq!(crisp(a).or(&crisp(b)), crisp(a || b));
            assert_eq!(crisp(a).xor(&crisp(b)), crisp(a != b));
            assert_eq!(crisp(a).nand(&crisp(b)), crisp(!(a && b)));
            assert_eq!(crisp(a).nor(&crisp(b)), crisp(!(a || b)));
        }
    }
}

#[test]
fn double_negation() {
    for t in samples() {
        assert_eq!(t.not().not(), t);
    }
    assert_eq!(Trit::Z(QUARTER).not(), Trit::Z(THREE_QUARTERS));
}

#[test]
fn de_morgan() {
    for a in samples() {
        for b in samples() {
            assert_eq!(a.and(&b).not(), a.not().or(&b.not()));
            assert_eq!(a.or(&b).not(), a.not().and(&b.not()));
        }
    }
}

#[test]
fn product_and_sum_values() {
    let half = Trit::Z(HALF as u32);
    assert_eq!(half.and(&half), Trit::Z(QUARTER));
    assert_eq!(half.or(&half), Trit::Z(THREE_QUARTERS));
    assert_eq!(half.nand(&half), Trit::Z(THREE_QUARTERS));
    assert_eq!(half.nor(&half), Trit::Z(QUARTER));
    assert_eq!(Trit::Z(1).and(&Trit::Z(1)), Trit::F);
    assert_eq!(Trit::Z(u32::MAX).and(&Trit::T), Trit::Z(u32::MAX));
    // The complement Z(1) squared rounds down to F, so the sum is crisp.
    assert_eq!(Trit::Z(u32::MAX).or(&Trit::Z(u32::MAX)), Trit::T);
}

#[test]
fn xor_of_a_value_with_itself() {
    assert_eq!(Trit::T.xor(&Trit::T), Trit::F);
    assert_eq!(Trit::F.xor(&Trit::F), Trit::F);
    let half = Trit::Z(HALF as u32);
    // or(x, x) and nand(x, x) are both three quarters: their product is 9/16.
    assert_eq!(half.xor(&half), Trit::Z(0x9000_0000));
}

#[test]
fn from_scalar_validates() {
    assert_eq!(Trit::from_scalar(ONE + 1), None);
    assert_eq!(Trit::from_scalar(u64::MAX), None);
    assert_eq!(Trit::from_scalar(ONE), Some(Trit::T));
    assert_eq!(Trit::from_scalar(0), Some(Trit::F));
    assert_eq!(Trit::from_scalar(1), Some(Trit::Z(1)));
    assert_eq!(Trit::from_scalar(HALF), Some(Trit::Z(HALF as u32)));
    assert_eq!(Trit::from_scalar(ONE - 1), Some(Trit::Z(u32::MAX)));
}

#[test]
fn from_scalar_unchecked_and_back() {
    assert_eq!(Trit::from_scalar_unchecked(ONE), Trit::T);
    assert_eq!(Trit::from_scalar_unchecked(0), Trit::F);
    assert_eq!(Trit::from_scalar_unchecked(77), Trit::Z(77));
    assert_eq!(Trit::T.to_scalar(), ONE);
    assert_eq!(Trit::F.to_scalar(), 0);
    assert_eq!(Trit::Z(77).to_scalar(), 77);
}

#[test]
fn decision_predicates() {
    assert!(!Trit::Z(HALF as u32 - 1).round());
    assert!(Trit::Z(HALF as u32).round());
    assert!(Trit::T.round());
    assert!(!Trit::F.round());
    assert!(Trit::T.doubt());
    assert!(!Trit::Z(u32::MAX).doubt());
    assert!(!Trit::F.doubt());
    assert!(!Trit::F.presume());
    assert!(Trit::Z(1).presume());
    assert!(Trit::T.presume());
}

#[test]
fn byte_from_u8_bits() {
    assert_eq!(byte_from_u8(0), [Trit::F; 8]);
    assert_eq!(byte_from_u8(255), [Trit::T; 8]);
    let one = byte_from_u8(1);
    assert_eq!(one[0], Trit::T);
    for i in 1..8 {
        assert_eq!(one[i], Trit::F);
    }
    let b = byte_from_u8(0b1010_0110);
    let expected = [
        Trit::F,
        Trit::T,
        Trit::T,
        Trit::F,
        Trit::F,
        Trit::T,
        Trit::F,
        Trit::T,
    ];
    assert_eq!(b, expected);
}

#[test]
fn byte_add_overflows() {
    let (sum, carry) = byte_full_add(&byte_from_u8(200), &byte_from_u8(100));
    assert_eq!(sum, byte_from_u8(44));
    assert_eq!(carry, Trit::T);
}

#[test]
fn byte_add_zero() {
    let (sum, carry) = byte_full_add(&byte_from_u8(0), &byte_from_u8(0));
    assert_eq!(sum, byte_from_u8(0));
    assert_eq!(carry, Trit::F);
}

#[test]
fn byte_add_matches_integer_addition() {
    for (a, b) in [(0u8, 255u8), (1, 255), (17, 38), (128, 128), (255, 255), (99, 0)] {
        let (sum, carry) = byte_full_add(&byte_from_u8(a), &byte_from_u8(b));
        assert_eq!(sum, byte_from_u8(a.wrapping_add(b)));
        assert_eq!(carry, crisp(a as u16 + b as u16 >= 256));
    }
}

#[test]
fn byte_add_fuzzy_position() {
    let mut first = byte_from_u8(0);
    first[0] = Trit::Z(HALF as u32);
    let (sum, carry) = byte_full_add(&first, &byte_from_u8(0));
    assert_eq!(sum, first);
    assert_eq!(carry, Trit::F);
}

#[test]
fn half_adder_is_full_adder_without_carry() {
    for a in samples() {
        for b in samples() {
            let h = half_adder(a, b);
            let (sum, carry) = full_add(&a, &b, &Trit::F);
            assert_eq!(h.sum, sum);
            assert_eq!(h.carry, carry);
        }
    }
}

#[test]
fn half_adder_crisp() {
    let h = half_adder(Trit::T, Trit::T);
    assert_eq!(h.sum, Trit::F);
    assert_eq!(h.carry, Trit::T);
    let h = half_adder(Trit::T, Trit::F);
    assert_eq!(h.sum, Trit::T);
    assert_eq!(h.carry, Trit::F);
}

#[test]
fn full_add_with_carry() {
    assert_eq!(full_add(&Trit::T, &Trit::T, &Trit::T), (Trit::T, Trit::T));
    assert_eq!(full_add(&Trit::T, &Trit::F, &Trit::T), (Trit::F, Trit::T));
    assert_eq!(full_add(&Trit::F, &Trit::F, &Trit::T), (Trit::T, Trit::F));
}

#[test]
fn bytewise_connectives() {
    let a = byte_from_u8(0b1100_1010);
    let b = byte_from_u8(0b1010_0110);
    assert_eq!(byte_or(&a, &b), byte_from_u8(0b1110_1110));
    assert_eq!(byte_and(&a, &b), byte_from_u8(0b1000_0010));
    assert_eq!(byte_not(&a), byte_from_u8(0b0011_0101));
    let mut f = byte_from_u8(0);
    f[3] = Trit::Z(HALF as u32);
    let r = byte_or(&f, &f);
    assert_eq!(r[3], Trit::Z(THREE_QUARTERS));
    assert_eq!(byte_and(&f, &f)[3], Trit::Z(QUARTER));
    assert_eq!(byte_not(&f)[3], Trit::Z(HALF as u32));
}

#[test]
fn trit_string_or_cuts_to_shorter() {
    let a = TritString::new(vec![Trit::T, Trit::F, Trit::F, Trit::Z(HALF as u32)]);
    let b = TritString::new(vec![Trit::F, Trit::F, Trit::T]);
    let r = a.bit_or(&b);
    assert_eq!(r.values(), &vec![Trit::T, Trit::F, Trit::T]);
    let r = a.bit_or(&a);
    assert_eq!(
        r.values(),
        &vec![Trit::T, Trit::F, Trit::F, Trit::Z(THREE_QUARTERS)]
    );
    let empty = TritString::new(vec![]);
    assert!(empty.bit_or(&a).values().is_empty());
}

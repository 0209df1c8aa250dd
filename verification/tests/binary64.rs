use math_lib::Binary64;

fn samples() -> Vec<f64> {
    let mut values = vec![
        0.0,
        -0.0,
        1.0,
        -1.0,
        100.0,
        0.1,
        -0.1,
        f64::EPSILON,
        -f64::EPSILON,
        f64::EPSILON / 2.0,
        -f64::EPSILON / 2.0,
        f64::from_bits(f64::EPSILON.to_bits() - 1),
        f64::from_bits(f64::EPSILON.to_bits() + 1),
        -f64::from_bits(f64::EPSILON.to_bits() - 1),
        f64::MIN_POSITIVE,
        -f64::MIN_POSITIVE,
        f64::from_bits(1),
        -f64::from_bits(1),
        f64::MAX,
        f64::MIN,
        f64::INFINITY,
        f64::NEG_INFINITY,
        f64::NAN,
        -f64::NAN,
        f64::from_bits(0x7FF0_0000_0000_0001),
        f64::from_bits(0xFFF0_0000_0000_0001),
        f64::from_bits(0xFFFF_FFFF_FFFF_FFFF),
    ];
    let mut bits: u64 = 0x9E37_79B9_7F4A_7C15;
    for _ in 0..20_000 {
        bits ^= bits << 13;
        bits ^= bits >> 7;
        bits ^= bits << 17;
        values.push(f64::from_bits(bits));
    }
    for exponent in 0..0x800_u64 {
        values.push(f64::from_bits(exponent << 52));
        values.push(f64::from_bits((exponent << 52) | 0x8000_0000_0000_0000));
        values.push(f64::from_bits((exponent << 52) | 0x000F_FFFF_FFFF_FFFF));
    }
    values
}

#[test]
fn negligible_is_below_epsilon() {
    for value in samples() {
        let number = Binary64::from_bits(value.to_bits());
        assert_eq!(value.abs() < f64::EPSILON, number.negligible(), "{:e}", value);
    }
}

#[test]
fn negative_is_below_zero() {
    for value in samples() {
        let number = Binary64::from_bits(value.to_bits());
        assert_eq!(value < 0., number.negative(), "{:e}", value);
    }
}

#[test]
fn bits_are_kept() {
    assert_eq!(0x4000_0000_0000_0000, Binary64::from_bits(2.0_f64.to_bits()).to_bits());
    assert_eq!(Binary64 { bits: 7 }, Binary64::from_bits(7));
}

#[test]
fn whole_numbers_are_written_bit_by_bit() {
    for n in 0..=255_u8 {
        assert_eq!((n as f64).to_bits(), Binary64::whole(n).to_bits(), "{}", n);
    }
    assert_eq!(f64::INFINITY.to_bits(), Binary64::positive_infinity().to_bits());
}

#[test]
fn the_whole_part_is_the_number_without_its_fraction() {
    for value in samples() {
        let number = Binary64::from_bits(value.to_bits());
        let whole = value.abs() as u64;
        let expected = if whole < 256 { Some(whole as u8) } else { None };
        assert_eq!(expected, number.small_whole_part(), "{:e}", value);
    }
    for n in 0..=300_u32 {
        for value in [n as f64, n as f64 + 0.5, n as f64 + 0.9999999999] {
            let number = Binary64::from_bits(value.to_bits());
            let expected = if n < 256 { Some(n as u8) } else { None };
            assert_eq!(expected, number.small_whole_part(), "{:e}", value);
        }
    }
    let below = f64::from_bits(256.0_f64.to_bits() - 1);
    assert_eq!(Some(255), Binary64::from_bits(below.to_bits()).small_whole_part());
}

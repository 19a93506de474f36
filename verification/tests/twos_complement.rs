use disassembler::twos_complement::to_twos_complement;

#[test]
fn sixteen_bit_extremes() {
    assert_eq!(to_twos_complement(0x8000, 16), -32768);
    assert_eq!(to_twos_complement(0x7FFF, 16), 32767);
    assert_eq!(to_twos_complement(0, 16), 0);
}

#[test]
fn sixteen_bit_minus_one() {
    assert_eq!(to_twos_complement(0xFFFF, 16), -1);
    assert_eq!(to_twos_complement(0xFFFE, 16), -2);
    assert_eq!(to_twos_complement(1, 16), 1);
}

#[test]
fn every_sixteen_bit_value_is_in_range_and_round_trips() {
    for v in 0u32..=0xFFFF {
        let signed = to_twos_complement(v, 16);
        assert!((-32768..=32767).contains(&signed));
        assert_eq!(signed.rem_euclid(65536), v as i32);
        assert_eq!(signed, v as u16 as i16 as i32);
    }
}

#[test]
fn one_bit_field() {
    assert_eq!(to_twos_complement(0, 1), 0);
    assert_eq!(to_twos_complement(1, 1), -1);
}

#[test]
fn eight_bit_field() {
    assert_eq!(to_twos_complement(0x7F, 8), 127);
    assert_eq!(to_twos_complement(0x80, 8), -128);
    assert_eq!(to_twos_complement(0xFF, 8), -1);
}

#[test]
fn thirty_two_bit_field() {
    assert_eq!(to_twos_complement(0, 32), 0);
    assert_eq!(to_twos_complement(0x7FFF_FFFF, 32), i32::MAX);
    assert_eq!(to_twos_complement(0x8000_0000, 32), i32::MIN);
    assert_eq!(to_twos_complement(0xFFFF_FFFF, 32), -1);
}

#[test]
fn thirty_one_bit_field() {
    assert_eq!(to_twos_complement(0x3FFF_FFFF, 31), 0x3FFF_FFFF);
    assert_eq!(to_twos_complement(0x4000_0000, 31), -0x4000_0000);
}

#[test]
fn bits_above_the_field_are_ignored() {
    assert_eq!(to_twos_complement(0xABCD_8000, 16), -32768);
    assert_eq!(to_twos_complement(0xABCD_0005, 16), 5);
    assert_eq!(to_twos_complement(0x1_00, 8), 0);
    assert_eq!(to_twos_complement(0b110, 2), -2);
}

#[test]
fn every_width_agrees_with_sign_extension() {
    let samples = [0u32, 1, 2, 0x55, 0x80, 0x7FFF, 0x8000, 0xDEAD_BEEF, 0x7FFF_FFFF, u32::MAX];
    for bits in 1u32..=32 {
        for n in samples {
            let shift = 32 - bits;
            let expected = ((n << shift) as i32) >> shift;
            assert_eq!(to_twos_complement(n, bits), expected);
        }
    }
}

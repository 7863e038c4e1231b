use evolut::gene::{DecodeError, Gene};

fn round_trip(source_id: u8, destination_id: u8, weight: f32) {
    let gene = Gene::new(source_id, destination_id, weight.to_bits());
    let hex = gene.as_hex();
    assert_eq!(hex.len(), 12);
    let back = Gene::from_hex(&hex).expect("a gene's own encoding must decode");
    assert_eq!(back.source_id(), source_id);
    assert_eq!(back.destination_id(), destination_id);
    assert_eq!(back.weight(), weight.to_bits());
}

#[test]
fn encode_then_decode_is_identity() {
    round_trip(0, 0, 0.0);
    round_trip(0, 128, 0.2);
    round_trip(129, 130, 0.3);
    round_trip(255, 255, -1.0);
    round_trip(17, 204, 1.5e-39); // subnormal
    round_trip(1, 2, f32::INFINITY);
    round_trip(3, 4, f32::NEG_INFINITY);
}

#[test]
fn round_trip_is_bit_exact_for_nan_payloads() {
    // A NaN payload survives the round trip bit for bit, which a decimal
    // rendering could never promise.
    let bits: u32 = 0x7fc0_0001;
    let gene = Gene::new(5, 6, bits);
    let back = Gene::from_hex(&gene.as_hex()).unwrap();
    assert_eq!(back.weight(), bits);
    assert!(f32::from_bits(back.weight()).is_nan());
}

#[test]
fn encoding_is_fixed_width_lower_case_hex() {
    let gene = Gene::new(10, 11, 0.1f32.to_bits());
    assert_eq!(gene.as_hex(), "0a0b3dcccccd");
    let gene = Gene::new(0, 255, 0);
    assert_eq!(gene.as_hex(), "00ff00000000");
}

#[test]
fn decode_rejects_wrong_lengths() {
    assert_eq!(Gene::from_hex(""), Err(DecodeError::InvalidLength));
    assert_eq!(Gene::from_hex("0a0b3dccccc"), Err(DecodeError::InvalidLength));
    assert_eq!(Gene::from_hex("0a0b3dcccccd0"), Err(DecodeError::InvalidLength));
    assert_eq!(
        Gene::from_hex("0a0b3dcccccd0a0b3dcccccd"),
        Err(DecodeError::InvalidLength)
    );
}

#[test]
fn decode_rejects_a_non_hex_character_at_any_position() {
    let good = "0a0b3dcccccd";
    for i in 0..12 {
        let mut bad: Vec<char> = good.chars().collect();
        bad[i] = 'g';
        let bad: String = bad.into_iter().collect();
        assert_eq!(Gene::from_hex(&bad), Err(DecodeError::InvalidDigit));
    }
    assert_eq!(Gene::from_hex("+a0b3dcccccd"), Err(DecodeError::InvalidDigit));
    assert_eq!(Gene::from_hex("0a0b3dcccc d"), Err(DecodeError::InvalidDigit));
}

#[test]
fn decode_accepts_upper_case_digits() {
    let gene = Gene::from_hex("0A0B3DCCCCCD").unwrap();
    assert_eq!(gene.source_id(), 10);
    assert_eq!(gene.destination_id(), 11);
    assert_eq!(gene.weight(), 0.1f32.to_bits());
}

#[test]
fn decode_never_fails_on_a_well_shaped_string() {
    // Every byte value and every bit pattern is a legal id or weight.
    assert!(Gene::from_hex("ffffffffffff").is_ok());
    assert!(Gene::from_hex("000000000000").is_ok());
    assert!(Gene::from_hex("80807f800000").is_ok());
}

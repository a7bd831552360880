use genetics::error::DecodeError;
use genetics::Marker;
use rand::thread_rng;
use rand::Rng;
use rand_distr::StandardNormal;

fn sample_bits() -> u32 {
    let v: f32 = thread_rng().sample(StandardNormal);
    v.to_bits()
}

#[test]
fn marker_can_be_converted_and_back() {
    let marker = Marker::new(sample_bits());
    let string_value: String = marker.to_string();
    let restored_marker: Marker = Marker::decode(&string_value).unwrap();
    assert_eq!(marker.bits, restored_marker.bits);
}

#[test]
fn round_trip_special_values() {
    let samples: Vec<f32> = vec![
        0.0,
        -0.0,
        1.0,
        -1.0,
        f32::NAN,
        f32::INFINITY,
        f32::NEG_INFINITY,
        f32::from_bits(1),
        f32::MAX,
    ];
    for v in samples {
        let marker = Marker::new(v.to_bits());
        let text = marker.to_string();
        assert_eq!(text.len(), 8);
        let restored = Marker::decode(&text).unwrap();
        assert_eq!(restored.bits, v.to_bits());
    }
}

#[test]
fn encoding_is_big_endian_lowercase_hex() {
    assert_eq!(Marker::new(1.0f32.to_bits()).to_string(), "3f800000");
    assert_eq!(Marker::new(0.0f32.to_bits()).to_string(), "00000000");
    assert_eq!(Marker::new((-0.0f32).to_bits()).to_string(), "80000000");
    assert_eq!(Marker::new(f32::MAX.to_bits()).to_string(), "7f7fffff");
    assert_eq!(Marker::new(0xdeadbeef).to_string(), "deadbeef");
}

#[test]
fn decode_accepts_uppercase() {
    let m = Marker::decode("3F800000").unwrap();
    assert_eq!(m.bits, 0x3f800000);
}

#[test]
fn decode_rejects_odd_length() {
    assert_eq!(Marker::decode("3f80000"), Err(DecodeError::InvalidHexLength));
    assert_eq!(Marker::decode("f"), Err(DecodeError::InvalidHexLength));
}

#[test]
fn decode_rejects_wrong_byte_count() {
    assert_eq!(Marker::decode("3f8000"), Err(DecodeError::UnexpectedByteCount));
    assert_eq!(Marker::decode(""), Err(DecodeError::UnexpectedByteCount));
    assert_eq!(
        Marker::decode("3f80000000"),
        Err(DecodeError::UnexpectedByteCount)
    );
}

#[test]
fn decode_rejects_bad_digit() {
    assert_eq!(Marker::decode("3f80000g"), Err(DecodeError::InvalidHexDigit));
    assert_eq!(Marker::decode("++800000"), Err(DecodeError::InvalidHexDigit));
}

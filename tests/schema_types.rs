use rgb_core::{
    Bits, DecodeError, DigestAlgorithm, EllipticCurve, Occurences, OccurrencesError,
    PointSerialization, SignatureAlgorithm, UnsignedInteger,
};

const ONCE: [u8; 9] = [0x1, 0x0, 0x0, 0x0, 0x0, 0x0, 0x0, 0x0, 0x0];
const NONEORONCE: [u8; 9] = [0x0, 0x0, 0x0, 0x0, 0x0, 0x0, 0x0, 0x0, 0x0];
const NONEUPTO_U8: [u8; 9] = [0xfe, 0xff, 0x0, 0x0, 0x0, 0x0, 0x0, 0x0, 0x0];
const NONEUPTO_U16: [u8; 9] = [0xfe, 0xff, 0xff, 0x0, 0x0, 0x0, 0x0, 0x0, 0x0];
const NONEUPTO_U32: [u8; 9] = [0xfe, 0xff, 0xff, 0xff, 0xff, 0x0, 0x0, 0x0, 0x0];
const NONEUPTO_U64: [u8; 9] = [0xfe, 0xff, 0xff, 0xff, 0xff, 0xff, 0xff, 0xff, 0xff];

fn round_trip<I: UnsignedInteger + PartialEq + std::fmt::Debug>(bytes: &[u8; 9]) {
    let value: Occurences<I> = Occurences::strict_decode(&bytes[..]).unwrap();
    assert_eq!(value.strict_encode(), bytes.to_vec());
}

#[test]
fn test_once_check_count() {
    let occurence: Occurences<u32> = Occurences::Once;
    occurence.check(1u32).unwrap();
}

#[test]
#[should_panic(expected = "OccurrencesError { min: 1, max: 1, found: 0 }")]
fn test_once_check_count_fail_zero() {
    let occurence: Occurences<u32> = Occurences::Once;
    occurence.check(0u32).unwrap();
}

#[test]
#[should_panic(expected = "OccurrencesError { min: 1, max: 1, found: 2 }")]
fn test_once_check_count_fail_two() {
    let occurence: Occurences<u32> = Occurences::Once;
    occurence.check(2u32).unwrap();
}

#[test]
fn test_none_or_once_check_count() {
    let occurence: Occurences<u32> = Occurences::NoneOrOnce;
    occurence.check(1u32).unwrap();
}

#[test]
fn test_none_or_once_check_count_zero() {
    let occurence: Occurences<u32> = Occurences::NoneOrOnce;
    occurence.check(0u32).unwrap();
}

#[test]
#[should_panic(expected = "OccurrencesError { min: 0, max: 1, found: 2 }")]
fn test_none_or_once_check_count_fail_two() {
    let occurence: Occurences<u32> = Occurences::NoneOrOnce;
    occurence.check(2u32).unwrap();
}

#[test]
fn test_once_or_up_to_none() {
    let occurence: Occurences<u32> = Occurences::OnceOrUpTo(None);
    occurence.check(1u32).unwrap();
}

#[test]
fn test_once_or_up_to_none_large() {
    let occurence: Occurences<u32> = Occurences::OnceOrUpTo(None);
    occurence.check(u32::MAX).unwrap();
}

#[test]
#[should_panic(expected = "OccurrencesError { min: 1, max: 4294967295, found: 0 }")]
fn test_once_or_up_to_none_fail_zero() {
    let occurence: Occurences<u32> = Occurences::OnceOrUpTo(None);
    occurence.check(0u32).unwrap();
}

#[test]
fn test_once_or_up_to_42() {
    let occurence: Occurences<u32> = Occurences::OnceOrUpTo(Some(42));
    occurence.check(42u32).unwrap();
}

#[test]
#[should_panic(expected = "OccurrencesError { min: 1, max: 42, found: 43 }")]
fn test_once_or_up_to_42_large() {
    let occurence: Occurences<u32> = Occurences::OnceOrUpTo(Some(42));
    occurence.check(43u32).unwrap();
}

#[test]
#[should_panic(expected = "OccurrencesError { min: 1, max: 42, found: 0 }")]
fn test_once_or_up_to_42_fail_zero() {
    let occurence: Occurences<u32> = Occurences::OnceOrUpTo(Some(42));
    occurence.check(0u32).unwrap();
}

#[test]
fn test_none_or_up_to_none_zero() {
    let occurence: Occurences<u32> = Occurences::NoneOrUpTo(None);
    occurence.check(0u32).unwrap();
}

#[test]
fn test_none_or_up_to_none_large() {
    let occurence: Occurences<u32> = Occurences::NoneOrUpTo(None);
    occurence.check(u32::MAX).unwrap();
}

#[test]
fn test_none_or_up_to_42_zero() {
    let occurence: Occurences<u32> = Occurences::NoneOrUpTo(Some(42));
    occurence.check(0u32).unwrap();
}

#[test]
fn test_none_or_up_to_42() {
    let occurence: Occurences<u32> = Occurences::NoneOrUpTo(Some(42));
    occurence.check(42u32).unwrap();
}

#[test]
#[should_panic(expected = "OccurrencesError { min: 0, max: 42, found: 43 }")]
fn test_none_or_up_to_42_large() {
    let occurence: Occurences<u32> = Occurences::NoneOrUpTo(Some(42));
    occurence.check(43u32).unwrap();
}

#[test]
fn test_encode_occurance() {
    round_trip::<u8>(&ONCE);
    round_trip::<u16>(&ONCE);
    round_trip::<u32>(&ONCE);
    round_trip::<u64>(&ONCE);
    round_trip::<u8>(&NONEORONCE);
    round_trip::<u16>(&NONEORONCE);
    round_trip::<u32>(&NONEORONCE);
    round_trip::<u64>(&NONEORONCE);

    round_trip::<u8>(&NONEUPTO_U8);
    round_trip::<u16>(&NONEUPTO_U16);
    round_trip::<u32>(&NONEUPTO_U32);
    round_trip::<u64>(&NONEUPTO_U64);
}

#[test]
fn test_encode_occurance_2() {
    let mut once_upto_u8 = NONEUPTO_U8;
    let mut once_upto_u16 = NONEUPTO_U16;
    let mut once_upto_u32 = NONEUPTO_U32;
    let mut once_upto_u64 = NONEUPTO_U64;

    once_upto_u8[0] = 0xFF;
    once_upto_u16[0] = 0xFF;
    once_upto_u32[0] = 0xFF;
    once_upto_u64[0] = 0xFF;

    let dec1: Occurences<u8> = Occurences::strict_decode(&once_upto_u8[..]).unwrap();
    let dec2: Occurences<u16> = Occurences::strict_decode(&once_upto_u16[..]).unwrap();
    let dec3: Occurences<u32> = Occurences::strict_decode(&once_upto_u32[..]).unwrap();
    let dec4: Occurences<u64> = Occurences::strict_decode(&once_upto_u64[..]).unwrap();

    assert_eq!(dec1, Occurences::OnceOrUpTo(None));
    assert_eq!(dec2, Occurences::OnceOrUpTo(None));
    assert_eq!(dec3, Occurences::OnceOrUpTo(None));
    assert_eq!(dec4, Occurences::OnceOrUpTo(None));

    let wc1: Occurences<u64> = Occurences::strict_decode(&once_upto_u8[..]).unwrap();
    let wc2: Occurences<u64> = Occurences::strict_decode(&once_upto_u16[..]).unwrap();
    let wc3: Occurences<u64> = Occurences::strict_decode(&once_upto_u32[..]).unwrap();

    assert_eq!(wc1, Occurences::OnceOrUpTo(Some(u8::MAX as u64)));
    assert_eq!(wc2, Occurences::OnceOrUpTo(Some(u16::MAX as u64)));
    assert_eq!(wc3, Occurences::OnceOrUpTo(Some(u32::MAX as u64)));
}

#[test]
#[should_panic(expected = "ValueOutOfRange")]
fn test_occurrence_panic_5() {
    let _: Occurences<u8> = Occurences::strict_decode(&NONEUPTO_U64[..]).unwrap();
}

#[test]
#[should_panic(expected = "ValueOutOfRange")]
fn test_occurrence_panic_6() {
    let _: Occurences<u16> = Occurences::strict_decode(&NONEUPTO_U32[..]).unwrap();
}

#[test]
fn test_digest_algorithm() {
    let cases = [
        ([0x11u8], DigestAlgorithm::Sha256),
        ([0x12u8], DigestAlgorithm::Sha512),
        ([0x48u8], DigestAlgorithm::Bitcoin160),
        ([0x51u8], DigestAlgorithm::Bitcoin256),
    ];
    for (bytes, algo) in cases {
        assert_eq!(algo.strict_encode(), bytes.to_vec());
        assert_eq!(DigestAlgorithm::strict_decode(&bytes[..]).unwrap(), algo);
    }

    let sha256 = DigestAlgorithm::strict_decode(&[0x11][..]).unwrap();
    let sha512 = DigestAlgorithm::strict_decode(&[0x12][..]).unwrap();
    let bitcoin160 = DigestAlgorithm::strict_decode(&[0x48][..]).unwrap();
    let bitcoin256 = DigestAlgorithm::strict_decode(&[0x51][..]).unwrap();

    assert_eq!(sha256, DigestAlgorithm::Sha256);
    assert_eq!(sha512, DigestAlgorithm::Sha512);
    assert_eq!(bitcoin160, DigestAlgorithm::Bitcoin160);
    assert_eq!(bitcoin256, DigestAlgorithm::Bitcoin256);
}

#[test]
#[should_panic(expected = "EnumValueNotKnown")]
fn test_digest_panic() {
    DigestAlgorithm::strict_decode(&[0x17][..]).unwrap();
}

#[test]
fn test_bits() {
    let bit8 = Bits::strict_decode(&[0x01][..]).unwrap();
    let bit16 = Bits::strict_decode(&[0x02][..]).unwrap();
    let bit32 = Bits::strict_decode(&[0x04][..]).unwrap();
    let bit64 = Bits::strict_decode(&[0x08][..]).unwrap();

    assert_eq!(bit8, Bits::Bit8);
    assert_eq!(bit16, Bits::Bit16);
    assert_eq!(bit32, Bits::Bit32);
    assert_eq!(bit64, Bits::Bit64);

    assert_eq!(bit8.max_value(), u8::MAX as u128);
    assert_eq!(bit16.max_value(), u16::MAX as u128);
    assert_eq!(bit32.max_value(), u32::MAX as u128);
    assert_eq!(bit64.max_value(), u64::MAX as u128);

    assert_eq!(bit8.bit_len(), 8 as usize);
    assert_eq!(bit8.byte_len(), 1 as usize);
    assert_eq!(bit16.bit_len(), 16 as usize);
    assert_eq!(bit16.byte_len(), 2 as usize);
    assert_eq!(bit32.bit_len(), 32 as usize);
    assert_eq!(bit32.byte_len(), 4 as usize);
    assert_eq!(bit64.bit_len(), 64 as usize);
    assert_eq!(bit64.byte_len(), 8 as usize);
}

#[test]
#[should_panic(expected = "EnumValueNotKnown")]
fn test_bits_panic() {
    Bits::strict_decode(&[0x12][..]).unwrap();
}

#[test]
fn test_elliptic_curve() {
    assert_eq!(EllipticCurve::Secp256k1.strict_encode(), vec![0x00]);
    assert_eq!(EllipticCurve::Curve25519.strict_encode(), vec![0x10]);

    assert_eq!(
        EllipticCurve::strict_decode(&[0x00][..]).unwrap(),
        EllipticCurve::Secp256k1
    );
    assert_eq!(
        EllipticCurve::strict_decode(&[0x10][..]).unwrap(),
        EllipticCurve::Curve25519
    );
}

#[test]
#[should_panic(expected = "EnumValueNotKnown")]
fn test_elliptic_curve_panic() {
    EllipticCurve::strict_decode(&[0x09][..]).unwrap();
}

#[test]
fn test_signature_algo() {
    assert_eq!(SignatureAlgorithm::Ecdsa.strict_encode(), vec![0x00]);
    assert_eq!(SignatureAlgorithm::Schnorr.strict_encode(), vec![0x01]);
    assert_eq!(SignatureAlgorithm::Ed25519.strict_encode(), vec![0x02]);

    let ecdsa = SignatureAlgorithm::strict_decode(&[0x00][..]).unwrap();
    let schnorr = SignatureAlgorithm::strict_decode(&[0x01][..]).unwrap();
    let ed25519 = SignatureAlgorithm::strict_decode(&[0x02][..]).unwrap();

    assert_eq!(ecdsa, SignatureAlgorithm::Ecdsa);
    assert_eq!(schnorr, SignatureAlgorithm::Schnorr);
    assert_eq!(ed25519, SignatureAlgorithm::Ed25519);
}

#[test]
#[should_panic(expected = "EnumValueNotKnown")]
fn test_signature_algo_panic() {
    SignatureAlgorithm::strict_decode(&[0x03][..]).unwrap();
}

#[test]
fn test_point_ser() {
    assert_eq!(PointSerialization::Uncompressed.strict_encode(), vec![0x00]);
    assert_eq!(PointSerialization::Compressed.strict_encode(), vec![0x01]);
    assert_eq!(PointSerialization::SchnorrBip.strict_encode(), vec![0x02]);

    assert_eq!(
        PointSerialization::strict_decode(&[0x00][..]).unwrap(),
        PointSerialization::Uncompressed
    );
    assert_eq!(
        PointSerialization::strict_decode(&[0x01][..]).unwrap(),
        PointSerialization::Compressed
    );
    assert_eq!(
        PointSerialization::strict_decode(&[0x02][..]).unwrap(),
        PointSerialization::SchnorrBip
    );
}

#[test]
#[should_panic(expected = "EnumValueNotKnown")]
fn test_point_ser_panic() {
    PointSerialization::strict_decode(&[0x03][..]).unwrap();
}

#[test]
fn test_unsigned() {
    let u8_unsigned = u8::MAX;
    let u16_unsigned = u16::MAX;
    let u32_unsigned = u32::MAX;
    let u64_unsigned = u64::MAX;

    assert_eq!(u8_unsigned.as_u64(), u8::MAX as u64);
    assert_eq!(u8::bits(), Bits::Bit8);
    assert_eq!(u16_unsigned.as_u64(), u16::MAX as u64);
    assert_eq!(u16::bits(), Bits::Bit16);
    assert_eq!(u32_unsigned.as_u64(), u32::MAX as u64);
    assert_eq!(u32::bits(), Bits::Bit32);
    assert_eq!(u64_unsigned.as_u64(), u64::MAX as u64);
    assert_eq!(u64::bits(), Bits::Bit64);
}

#[test]
fn occurrences_check_above_type_max_is_not_truncated() {
    let occurence: Occurences<u8> = Occurences::NoneOrUpTo(None);
    assert_eq!(
        occurence.check(256u32),
        Err(OccurrencesError { min: 0, max: 255, found: 256 })
    );
    assert_eq!(occurence.check(255u64), Ok(()));
}

#[test]
fn occurrences_min_max_values() {
    let a: Occurences<u16> = Occurences::OnceOrUpTo(Some(7));
    assert_eq!((a.min_value(), a.max_value()), (1, 7));
    let b: Occurences<u16> = Occurences::NoneOrUpTo(None);
    assert_eq!((b.min_value(), b.max_value()), (0, u16::MAX));
    let c: Occurences<u8> = Occurences::NoneOrOnce;
    assert_eq!((c.min_value(), c.max_value()), (0, 1));
}

#[test]
fn occurrences_unbounded_encoding() {
    let a: Occurences<u8> = Occurences::NoneOrUpTo(None);
    assert_eq!(a.strict_encode(), vec![0xFE, 0xFF, 0, 0, 0, 0, 0, 0, 0]);
    assert_eq!(Occurences::<u8>::strict_decode(&a.strict_encode()), Ok(a));
    let b: Occurences<u64> = Occurences::OnceOrUpTo(None);
    assert_eq!(b.strict_encode(), vec![0xFF; 9]);
}

#[test]
fn occurrences_explicit_type_max_decodes_as_none() {
    let a: Occurences<u16> = Occurences::OnceOrUpTo(Some(u16::MAX));
    let back = Occurences::<u16>::strict_decode(&a.strict_encode()).unwrap();
    assert_eq!(back, Occurences::OnceOrUpTo(None));
    let b: Occurences<u16> = Occurences::NoneOrUpTo(Some(300));
    assert_eq!(b.strict_encode(), vec![0xFE, 0x2C, 0x01, 0, 0, 0, 0, 0, 0]);
    assert_eq!(Occurences::<u16>::strict_decode(&b.strict_encode()), Ok(b));
}

#[test]
fn occurrences_decode_errors() {
    assert_eq!(
        Occurences::<u8>::strict_decode(&[0x01, 0, 0]),
        Err(DecodeError::UnexpectedEof)
    );
    assert_eq!(
        Occurences::<u8>::strict_decode(&[0x07, 0, 0, 0, 0, 0, 0, 0, 0]),
        Err(DecodeError::EnumValueNotKnown { value: 0x07 })
    );
    assert_eq!(
        Occurences::<u8>::strict_decode(&NONEUPTO_U16),
        Err(DecodeError::ValueOutOfRange { max: 255, found: 0xFFFF })
    );
}

#[test]
fn enum_unknown_bytes_and_empty_input() {
    assert_eq!(Bits::strict_decode(&[]), Err(DecodeError::UnexpectedEof));
    assert_eq!(
        DigestAlgorithm::strict_decode(&[0x13]),
        Err(DecodeError::EnumValueNotKnown { value: 0x13 })
    );
    assert_eq!(Bits::from_u8(3), None);
    assert_eq!(Bits::Bit32.to_u8(), 4);
    assert_eq!(EllipticCurve::from_u8(0x10), Some(EllipticCurve::Curve25519));
}

#[test]
fn occurrences_are_ordered() {
    let a: Occurences<u8> = Occurences::Once;
    let b: Occurences<u8> = Occurences::NoneOrUpTo(Some(3));
    assert!(a < b);
    assert_eq!(a.cmp(&a), std::cmp::Ordering::Equal);
}

use std::cmp::Ordering;

use rgb_core::data::{ConcealedState, DataState, RevealedData, RevealedState, VoidState};
use rgb_core::ids::StateType;
use rgb_core::DecodeError;

fn hex32(s: &str) -> [u8; 32] {
    let mut out = [0u8; 32];
    for i in 0..32 {
        out[i] = u8::from_str_radix(&s[2 * i..2 * i + 2], 16).unwrap();
    }
    out
}

fn data(bytes: &[u8]) -> DataState {
    DataState::from_bytes(bytes.to_vec()).unwrap()
}

#[test]
fn revealed_data_encoding_bytes() {
    let v = RevealedData::with_salt(data(b"hello"), 1);
    let mut expected = vec![5, 0];
    expected.extend_from_slice(b"hello");
    expected.push(1);
    expected.extend_from_slice(&[0; 15]);
    assert_eq!(v.strict_encode(), expected);
}

#[test]
fn revealed_data_round_trip_keeps_value_and_id() {
    let v = RevealedData::with_salt(data(b"hello"), 0x0102_0304_0506_0708_090a_0b0c_0d0e_0f10);
    let back = RevealedData::strict_decode(&v.strict_encode()).unwrap();
    assert_eq!(back, v);
    assert_eq!(back.conceal(), v.conceal());
}

#[test]
fn revealed_data_conceal_is_tagged_hash() {
    let v = RevealedData::with_salt(data(b"hello"), 1);
    let expected = hex32("ee4001aafaa4257d9412c3ecdc681ccf249153ae3bb1f5e2433f8e49f2d2793f");
    assert_eq!(v.conceal().bytes, expected);
    let w = RevealedData::with_salt(data(b"hello"), 2);
    assert_ne!(w.conceal(), v.conceal());
}

#[test]
fn revealed_data_decode_errors() {
    assert_eq!(RevealedData::strict_decode(&[5]), Err(DecodeError::UnexpectedEof));
    assert_eq!(RevealedData::strict_decode(&[5, 0, 1, 2]), Err(DecodeError::UnexpectedEof));
}

#[test]
fn data_state_length_limit() {
    assert!(DataState::from_bytes(vec![0; 0xFFFF]).is_ok());
    assert_eq!(
        DataState::from_bytes(vec![0; 0x1_0000]),
        Err(DecodeError::LengthTooLarge { max: 0xFFFF, found: 0x1_0000 })
    );
}

#[test]
fn revealed_data_order_by_value_then_salt() {
    let a = RevealedData::with_salt(data(b"ab"), 9);
    let b = RevealedData::with_salt(data(b"abc"), 1);
    let c = RevealedData::with_salt(data(b"abc"), 2);
    assert_eq!(a.partial_cmp(&b), Some(Ordering::Less));
    assert_eq!(b.partial_cmp(&c), Some(Ordering::Less));
    assert_eq!(c.partial_cmp(&a), Some(Ordering::Greater));
    assert_eq!(a.cmp(&b), Ordering::Less);
    assert_eq!(c.partial_cmp(&c.clone()), Some(Ordering::Equal));
}

#[test]
fn state_kinds_and_concealment() {
    let void = VoidState;
    assert_eq!(void.conceal(), void);
    assert_eq!(void.state_type(), StateType::Void);
    assert!(matches!(void.state_data(), RevealedState::Void));
    assert!(matches!(void.state_commitment(), ConcealedState::Void));

    let v = RevealedData::with_salt(data(b"xyz"), 3);
    assert_eq!(v.state_type(), StateType::Structured);
    let revealed = v.state_data();
    assert_eq!(revealed.state_type(), StateType::Structured);
    match revealed.conceal() {
        ConcealedState::Structured(c) => {
            assert_eq!(c, v.conceal());
            assert_eq!(c.state_type(), StateType::Structured);
        }
        ConcealedState::Void => panic!("structured state concealed as void"),
    }
    assert_eq!(DataState::from(v.clone()).as_slice(), b"xyz");
}

#[test]
fn random_salt_keeps_value() {
    let v = RevealedData::new_random_salt(data(b"abc"));
    assert_eq!(v.value.as_slice(), b"abc");
}

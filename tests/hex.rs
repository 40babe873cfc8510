use safe_frost::fmt::Hex;
use safe_frost::hex::{decode, BytesOfLength, DecodeError};

#[test]
fn decode_with_and_without_prefix() {
    assert_eq!(decode::<Vec<u8>>("0x0102ff").unwrap(), vec![1, 2, 255]);
    assert_eq!(decode::<Vec<u8>>("0102ff").unwrap(), vec![1, 2, 255]);
    assert_eq!(decode::<Vec<u8>>("0xDEADbeef").unwrap(), vec![0xde, 0xad, 0xbe, 0xef]);
}

#[test]
fn decode_empty() {
    assert_eq!(decode::<Vec<u8>>("").unwrap(), Vec::<u8>::new());
    assert_eq!(decode::<Vec<u8>>("0x").unwrap(), Vec::<u8>::new());
}

#[test]
fn decode_odd_length() {
    assert_eq!(decode::<Vec<u8>>("0xabc"), Err(DecodeError::OddLength));
    assert_eq!(decode::<[u8; 32]>("1"), Err(DecodeError::OddLength));
}

#[test]
fn decode_wrong_length() {
    assert_eq!(decode::<[u8; 32]>("0x0102"), Err(DecodeError::WrongLength(2)));
}

#[test]
fn decode_wrong_length_before_digits() {
    assert_eq!(decode::<[u8; 32]>("zz"), Err(DecodeError::WrongLength(1)));
}

#[test]
fn decode_invalid_digit_is_the_first() {
    assert_eq!(decode::<Vec<u8>>("0x01zg"), Err(DecodeError::InvalidDigit(b'z')));
    assert_eq!(decode::<Vec<u8>>("0X01"), Err(DecodeError::InvalidDigit(b'X')));
    assert_eq!(decode::<Vec<u8>>("0g"), Err(DecodeError::InvalidDigit(b'g')));
}

#[test]
fn decode_fixed_length() {
    let hex = "0x0000000000000000000000000000000000000000000000000000000000000001";
    let mut expected = [0u8; 32];
    expected[31] = 1;
    assert_eq!(decode::<[u8; 32]>(hex).unwrap(), expected);
}

#[test]
fn of_len_buffers() {
    assert_eq!(<Vec<u8> as BytesOfLength>::of_len(3), Some(vec![0, 0, 0]));
    assert_eq!(<[u8; 32] as BytesOfLength>::of_len(31), None);
    assert_eq!(<[u8; 32] as BytesOfLength>::of_len(32), Some([0u8; 32]));
}

#[test]
fn hex_encodes_lowercase() {
    assert_eq!(Hex(&[0x00, 0xab, 0x1f]).to_string(), "00ab1f");
    assert_eq!(Hex(&[0xde, 0xad]).to_prefixed_string(), "0xdead");
    assert_eq!(Hex(&[]).to_string(), "");
}

#[test]
fn decode_error_messages() {
    assert_eq!(DecodeError::OddLength.message(), "odd number of hex digits");
    assert_eq!(DecodeError::WrongLength(16).message(), "wrong byte length of 16");
    assert_eq!(DecodeError::InvalidDigit(b'z').message(), "invalid hex digit 0x7a");
    assert_eq!(DecodeError::InvalidDigit(5).message(), "invalid hex digit 0x5");
}

#[test]
fn decode_other_fixed_lengths() {
    assert_eq!(decode::<[u8; 4]>("0xdeadbeef").unwrap(), [0xde, 0xad, 0xbe, 0xef]);
    assert_eq!(decode::<[u8; 4]>("0xdead"), Err(DecodeError::WrongLength(2)));
    assert_eq!(decode::<[u8; 0]>("").unwrap(), [0u8; 0]);
}

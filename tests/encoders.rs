use safe_frost::abi;
use safe_frost::address::Address;
use safe_frost::curve::{Coord, Point, Scalar};
use safe_frost::evm::{is_supported, verified_public_key, NotSupported};
use safe_frost::hex::decode;
use safe_frost::keccak::v256;

fn bytes32(hex: &str) -> [u8; 32] {
    decode::<[u8; 32]>(hex).unwrap()
}

fn generator() -> Point {
    Point {
        x: bytes32("79be667ef9dcbbac55a06295ce870b07029bfcdb2dce28d959f2815b16f81798"),
        y: bytes32("483ada7726a3c4655da4fbfc0e1108a8fd17b448a68554199c47d08ffb10d4b8"),
    }
}

fn address(hex: &str) -> Address {
    let v = decode::<Vec<u8>>(hex).unwrap();
    let mut a = [0u8; 20];
    a.copy_from_slice(&v);
    Address::from_bytes(a)
}

#[test]
fn keccak_of_empty_input() {
    assert_eq!(
        v256(&[]).to_vec(),
        decode::<Vec<u8>>("c5d2460186f7233c927e7db2dcc703c0e500b653ca82273b7bfad8045d85a470").unwrap()
    );
}

#[test]
fn address_of_generator() {
    let a = Address::from_key(&generator());
    assert_eq!(a.to_string(), "0x7E5F4552091A69125d5DfCb7b8C2659029395Bdf");
    assert_eq!(a.as_slice().len(), 20);
}

#[test]
fn checksum_vectors() {
    for expected in [
        "0x5aAeb6053F3E94C9b9A09f33669435E7Ef1BeAed",
        "0xfB6916095ca1df60bB79Ce92cE3Ea74c37c5d359",
        "0xdbF03B407c01E7cD3CBea99509d93f8DDDC8C6FB",
        "0xD1220A0cf47c7B9Be7A2E6BA89F429762e7b9aDb",
    ] {
        assert_eq!(address(expected).to_string(), expected);
    }
}

#[test]
fn checksum_all_lowercase_and_all_digits() {
    let a = address("0x0000000000000000000000000000000000000000");
    assert_eq!(a.to_string(), "0x0000000000000000000000000000000000000000");
    assert_eq!(a.to_string().len(), 42);
}

#[test]
fn abi_address_word() {
    let a = address("0x5aaeb6053f3e94c9b9a09f33669435e7ef1beaed");
    let w = abi::address(a);
    assert_eq!(&w[..12], &[0u8; 12]);
    assert_eq!(&w[12..], address("0x5aaeb6053f3e94c9b9a09f33669435e7ef1beaed").as_slice());
}

#[test]
fn abi_coord_and_scalar_words() {
    let g = generator();
    let c = abi::coord(&g);
    assert_eq!(&c[..32], &g.x);
    assert_eq!(&c[32..], &g.y);
    let z = bytes32("00000000000000000000000000000000000000000000000000000000000000ff");
    assert_eq!(abi::scalar(&z), z);
}

#[test]
fn coord_and_scalar_text() {
    let g = generator();
    assert_eq!(
        Coord(&g).to_string(),
        "{0x79be667ef9dcbbac55a06295ce870b07029bfcdb2dce28d959f2815b16f81798,\
         0x483ada7726a3c4655da4fbfc0e1108a8fd17b448a68554199c47d08ffb10d4b8}"
    );
    let z = bytes32("0000000000000000000000000000000000000000000000000000000000000001");
    assert_eq!(
        Scalar(&z).to_string(),
        "0x0000000000000000000000000000000000000000000000000000000000000001"
    );
}

#[test]
fn gate_accepts_below_order() {
    let mut p = generator();
    assert!(is_supported(&p));
    p.x = bytes32("fffffffffffffffffffffffffffffffebaaedce6af48a03bbfd25e8cd0364140");
    assert!(is_supported(&p));
    p.x = [0u8; 32];
    assert!(is_supported(&p));
}

#[test]
fn gate_rejects_order_and_above() {
    let mut p = generator();
    p.x = bytes32("fffffffffffffffffffffffffffffffebaaedce6af48a03bbfd25e8cd0364141");
    assert!(!is_supported(&p));
    assert_eq!(verified_public_key(&p), Err(NotSupported));
    p.x = [0xff; 32];
    assert!(!is_supported(&p));
}

#[test]
fn gate_is_deterministic() {
    let g = generator();
    for _ in 0..3 {
        assert!(is_supported(&g));
        assert_eq!(verified_public_key(&g), Ok(&g));
    }
    let mut p = generator();
    p.x = [0xff; 32];
    for _ in 0..3 {
        assert!(!is_supported(&p));
    }
}

#[test]
fn not_supported_message() {
    assert_eq!(NotSupported.message(), "public key not supported by the EVM verifier");
}

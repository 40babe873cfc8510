use crate::curve::Point;
use crate::fmt::{hex_ascii_bytes, hex_ascii_of, hex_digit, hex_digit_upper, nibble_at, push_hex_digit};
use crate::keccak::{keccak256, v256};
use vstd::prelude::*;
use vstd::string::StringExecFns;

verus! {

/// The address of `key`: the last 20 bytes of the Keccak-256 digest of its
/// coordinates.
pub open spec fn address_of(key: Point) -> Seq<u8> {
    keccak256(key.x@ + key.y@).skip(12)
}

/// The mixed-case hexadecimal spelling of address `a`: each digit is
/// uppercase where the matching nibble of the digest of the lowercase
/// spelling is 8 or more.
pub open spec fn checksummed(a: Seq<u8>) -> Seq<char> {
    Seq::new(
        2 * a.len(),
        |i: int|
            if nibble_at(keccak256(hex_ascii_of(a)), i) >= 8 {
                hex_digit_upper(nibble_at(a, i))
            } else {
                hex_digit(nibble_at(a, i))
            },
    )
}

/// Ethereum public address.
#[derive(Clone, Copy, Debug, PartialEq, Eq)]
pub struct Address([u8; 20]);

impl View for Address {
    type V = Seq<u8>;

    closed spec fn view(&self) -> Seq<u8> {
        self.0@
    }
}

impl Address {
    /// The address with the given bytes.
    pub fn from_bytes(bytes: [u8; 20]) -> (r: Address)
        ensures
            r@ == bytes@,
    {
        Address(bytes)
    }

    /// Compute the public address from a public verifying key.
    pub fn from_key(pubkey: &Point) -> (r: Address)
        ensures
            r@ == address_of(*pubkey),
    {
        let mut buf: Vec<u8> = Vec::new();
        let mut i: usize = 0;
        while i < 32
            invariant
                i <= 32,
                buf@ == pubkey.x@.take(i as int),
            decreases 32 - i,
        {
            buf.push(pubkey.x[i]);
            assert(pubkey.x@.take(i + 1) =~= pubkey.x@.take(i as int).push(pubkey.x@[i as int]));
            i = i + 1;
        }
        i = 0;
        while i < 32
            invariant
                i <= 32,
                buf@ == pubkey.x@ + pubkey.y@.take(i as int),
            decreases 32 - i,
        {
            buf.push(pubkey.y[i]);
            assert(pubkey.y@.take(i + 1) =~= pubkey.y@.take(i as int).push(pubkey.y@[i as int]));
            i = i + 1;
        }
        assert(pubkey.x@.take(32) =~= pubkey.x@);
        assert(pubkey.y@.take(32) =~= pubkey.y@);
        let digest = v256(buf.as_slice());
        let mut a = [0u8; 20];
        let mut k: usize = 0;
        while k < 20
            invariant
                k <= 20,
                digest@.len() == 32,
                forall|j: int| 0 <= j < k ==> a@[j] == digest@[j + 12],
            decreases 20 - k,
        {
            a[k] = digest[k + 12];
            k = k + 1;
        }
        assert(a@ =~= digest@.skip(12));
        Address(a)
    }

    /// Returns the address as a slice of bytes.
    pub fn as_slice(&self) -> (r: &[u8])
        ensures
            r@ == self@,
            r@.len() == 20,
    {
        self.0.as_slice()
    }

    /// The checksummed address: `0x` and the mixed-case hexadecimal spelling
    /// of its bytes.
    pub fn to_string(&self) -> (r: String)
        ensures
            r@ == "0x"@ + checksummed(self@),
    {
        let a = self.0.as_slice();
        let ascii = hex_ascii_bytes(a);
        let digest = v256(ascii.as_slice());
        let mut s = String::from_str("0x");
        let ghost start = s@;
        let mut i: usize = 0;
        while i < 40
            invariant
                i <= 40,
                a@ == self@,
                a@.len() == 20,
                digest@ == keccak256(hex_ascii_of(a@)),
                digest@.len() == 32,
                s@ == start + checksummed(a@).take(i as int),
            decreases 40 - i,
        {
            let byte = a[i / 2];
            let n = if i % 2 == 0 { byte / 16 } else { byte % 16 };
            let d = digest[i / 2];
            let m = if i % 2 == 0 { d / 16 } else { d % 16 };
            push_hex_digit(&mut s, n, m >= 8);
            assert(checksummed(a@).take(i + 1) =~= checksummed(a@).take(i as int).push(
                checksummed(a@)[i as int],
            ));
            i = i + 1;
        }
        assert(checksummed(a@).take(40) =~= checksummed(a@));
        s
    }
}

} // verus!

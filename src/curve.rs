use crate::fmt::{hex_of, push_hex};
use vstd::prelude::*;
use vstd::string::StringExecFns;

verus! {

/// A secp256k1 point in affine coordinates, each a 32-byte big-endian
/// integer.
#[derive(Clone, Copy, Debug, PartialEq, Eq)]
pub struct Point {
    pub x: [u8; 32],
    pub y: [u8; 32],
}

/// A Schnorr signature `(R, z)`: the commitment point and the response
/// scalar, big-endian.
#[derive(Clone, Copy, Debug, PartialEq, Eq)]
pub struct Signature {
    pub r: Point,
    pub z: [u8; 32],
}

/// The integer that `b` spells in big-endian order.
pub open spec fn be_value(b: Seq<u8>) -> nat
    decreases b.len(),
{
    if b.len() == 0 {
        0
    } else {
        be_value(b.drop_last()) * 256 + b.last() as nat
    }
}

/// The big-endian bytes of the order of the secp256k1 group.
pub open spec fn order_bytes() -> Seq<u8> {
    seq![
        0xFFu8, 0xFF, 0xFF, 0xFF, 0xFF, 0xFF, 0xFF, 0xFF,
        0xFF, 0xFF, 0xFF, 0xFF, 0xFF, 0xFF, 0xFF, 0xFE,
        0xBA, 0xAE, 0xDC, 0xE6, 0xAF, 0x48, 0xA0, 0x3B,
        0xBF, 0xD2, 0x5E, 0x8C, 0xD0, 0x36, 0x41, 0x41,
    ]
}

/// The order of the secp256k1 group.
pub open spec fn group_order() -> nat {
    be_value(order_bytes())
}

/// Formats a secp256k1 coordinate pair as `{0x<x>,0x<y>}`.
pub struct Coord<'a>(pub &'a Point);

impl<'a> Coord<'a> {
    /// The point as `{0x<x>,0x<y>}`, each coordinate in 64 lowercase
    /// hexadecimal digits.
    pub fn to_string(&self) -> (r: String)
        ensures
            r@ == "{0x"@ + hex_of(self.0.x@) + ",0x"@ + hex_of(self.0.y@) + "}"@,
    {
        let mut s = String::from_str("{0x");
        push_hex(&mut s, &self.0.x);
        s.append(",0x");
        push_hex(&mut s, &self.0.y);
        s.append("}");
        s
    }
}

/// Formats a secp256k1 scalar as `0x<z>`.
pub struct Scalar<'a>(pub &'a [u8; 32]);

impl<'a> Scalar<'a> {
    /// The scalar as `0x` and 64 lowercase hexadecimal digits.
    pub fn to_string(&self) -> (r: String)
        ensures
            r@ == "0x"@ + hex_of(self.0@),
    {
        let mut s = String::from_str("0x");
        push_hex(&mut s, self.0);
        s
    }
}

} // verus!

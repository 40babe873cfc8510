use crate::fmt::{hex_digit, push_hex_digit};
use crate::text::{decimal, push_decimal};
use vstd::prelude::*;
use vstd::string::StringExecFns;
use vstd::string::StringSliceAdditionalSpecFns;

verus! {

/// Whether `b` is an ASCII hexadecimal digit (either case).
pub open spec fn is_hex_digit(b: u8) -> bool {
    (48 <= b <= 57) || (97 <= b <= 102) || (65 <= b <= 70)
}

/// The value of the hexadecimal digit `b`.
pub open spec fn digit_value(b: u8) -> u8
    recommends
        is_hex_digit(b),
{
    if 48 <= b <= 57 {
        (b - 48) as u8
    } else if 97 <= b <= 102 {
        (b - 87) as u8
    } else {
        (b - 55) as u8
    }
}

/// The digits that follow an optional leading `0x`.
pub open spec fn strip_0x(s: Seq<u8>) -> Seq<u8> {
    if s.len() >= 2 && s[0] == 48 && s[1] == 120 {
        s.skip(2)
    } else {
        s
    }
}

/// The first byte of `h` that is not a hexadecimal digit, if any.
pub open spec fn first_invalid(h: Seq<u8>) -> Option<u8>
    decreases h.len(),
{
    if h.len() == 0 {
        None
    } else if !is_hex_digit(h[0]) {
        Some(h[0])
    } else {
        first_invalid(h.drop_first())
    }
}

/// The bytes spelled by an even-length string of hexadecimal digits, two
/// digits per byte, high nibble first.
pub open spec fn decoded(h: Seq<u8>) -> Seq<u8> {
    Seq::new(
        (h.len() / 2) as nat,
        |i: int| (digit_value(h[2 * i]) * 16 + digit_value(h[2 * i + 1])) as u8,
    )
}

/// What decoding the digits `h` gives, where `fits` says whether a buffer of
/// the resulting length can be had.
pub open spec fn decode_spec(h: Seq<u8>, fits: bool) -> Result<Seq<u8>, DecodeError> {
    if h.len() % 2 != 0 {
        Err(DecodeError::OddLength)
    } else if !fits {
        Err(DecodeError::WrongLength((h.len() / 2) as usize))
    } else if let Some(b) = first_invalid(h) {
        Err(DecodeError::InvalidDigit(b))
    } else {
        Ok(decoded(h))
    }
}

proof fn lemma_first_invalid_at(h: Seq<u8>, k: int)
    requires
        0 <= k < h.len(),
        forall|j: int| 0 <= j < k ==> is_hex_digit(#[trigger] h[j]),
        !is_hex_digit(h[k]),
    ensures
        first_invalid(h) == Some(h[k]),
    decreases k,
{
    if k > 0 {
        let t = h.drop_first();
        assert forall|j: int| 0 <= j < k - 1 implies is_hex_digit(#[trigger] t[j]) by {
            assert(t[j] == h[j + 1]);
        }
        lemma_first_invalid_at(t, k - 1);
    }
}

proof fn lemma_all_valid(h: Seq<u8>)
    requires
        forall|j: int| 0 <= j < h.len() ==> is_hex_digit(#[trigger] h[j]),
    ensures
        first_invalid(h) is None,
    decreases h.len(),
{
    if h.len() > 0 {
        let t = h.drop_first();
        assert forall|j: int| 0 <= j < t.len() implies is_hex_digit(#[trigger] t[j]) by {
            assert(t[j] == h[j + 1]);
        }
        lemma_all_valid(t);
    }
}

/// A byte buffer that can be made at some lengths and then filled in.
pub trait BytesOfLength: Sized {
    /// Whether a buffer of `len` bytes can be made.
    spec fn fits(len: nat) -> bool;

    /// The bytes the buffer holds.
    spec fn bytes(&self) -> Seq<u8>;

    /// Constructs a zeroed byte buffer of a specific length.
    fn of_len(len: usize) -> (r: Option<Self>)
        ensures
            r is Some <==> Self::fits(len as nat),
            r matches Some(v) ==> v.bytes() == Seq::new(len as nat, |i: int| 0u8),
    ;

    /// Sets the byte at `i`.
    fn set_byte(&mut self, i: usize, b: u8)
        requires
            i < old(self).bytes().len(),
        ensures
            final(self).bytes() == old(self).bytes().update(i as int, b),
    ;
}

impl BytesOfLength for Vec<u8> {
    open spec fn fits(len: nat) -> bool {
        true
    }

    open spec fn bytes(&self) -> Seq<u8> {
        self@
    }

    fn of_len(len: usize) -> (r: Option<Self>) {
        let mut v: Vec<u8> = Vec::new();
        while v.len() < len
            invariant
                v.len() <= len,
                forall|i: int| 0 <= i < v.len() ==> v@[i] == 0u8,
            decreases len - v.len(),
        {
            v.push(0);
        }
        assert(v@ == Seq::new(len as nat, |i: int| 0u8));
        Some(v)
    }

    fn set_byte(&mut self, i: usize, b: u8) {
        self.set(i, b);
    }
}

impl<const N: usize> BytesOfLength for [u8; N] {
    open spec fn fits(len: nat) -> bool {
        len == N
    }

    open spec fn bytes(&self) -> Seq<u8> {
        self@
    }

    fn of_len(len: usize) -> (r: Option<Self>) {
        if len == N {
            let a = [0u8; N];
            assert(a@ =~= Seq::new(len as nat, |i: int| 0u8));
            Some(a)
        } else {
            None
        }
    }

    fn set_byte(&mut self, i: usize, b: u8) {
        self[i] = b;
    }
}

fn nibble(b: u8) -> (r: Option<u8>)
    ensures
        r is Some <==> is_hex_digit(b),
        r matches Some(n) ==> n == digit_value(b) && n < 16,
{
    // '0'..='9', 'a'..='f', 'A'..='F'
    if 48 <= b && b <= 57 {
        Some(b - 48)
    } else if 97 <= b && b <= 102 {
        Some(b - 87)
    } else if 65 <= b && b <= 70 {
        Some(b - 55)
    } else {
        None
    }
}

/// Decode a hex string, with or without a leading `0x`.
pub fn decode<T: BytesOfLength>(value: &str) -> (r: Result<T, DecodeError>)
    ensures
        ({
            let h = strip_0x(value.spec_bytes());
            match decode_spec(h, T::fits((h.len() / 2) as nat)) {
                Ok(bytes) => r matches Ok(v) && v.bytes() == bytes,
                Err(e) => r == Err::<T, DecodeError>(e),
            }
        }),
{
    let s = value.as_bytes();
    let start: usize = if s.len() >= 2 && s[0] == 48 && s[1] == 120 {
        2
    } else {
        0
    };
    let ghost h = strip_0x(value.spec_bytes());
    assert(h == s@.subrange(start as int, s@.len() as int));
    let n = s.len() - start;
    if n % 2 != 0 {
        return Err(DecodeError::OddLength);
    }
    let len = n / 2;
    let mut res = match T::of_len(len) {
        Some(v) => v,
        None => return Err(DecodeError::WrongLength(len)),
    };
    let mut i: usize = 0;
    while i < len
        invariant
            h == strip_0x(value.spec_bytes()),
            h == s@.subrange(start as int, s@.len() as int),
            h.len() == 2 * len,
            start + 2 * len == s@.len(),
            s@.len() <= usize::MAX,
            T::fits(len as nat),
            i <= len,
            res.bytes().len() == len,
            forall|j: int| 0 <= j < 2 * i ==> is_hex_digit(#[trigger] h[j]),
            forall|j: int| 0 <= j < i ==> res.bytes()[j] == #[trigger] decoded(h)[j],
        decreases len - i,
    {
        let k = start + 2 * i;
        assert(h[2 * i] == s@[k as int] && h[2 * i + 1] == s@[k + 1]);
        let hi = match nibble(s[k]) {
            Some(d) => d,
            None => {
                proof {
                    lemma_first_invalid_at(h, 2 * i as int);
                }
                return Err(DecodeError::InvalidDigit(s[k]));
            },
        };
        let lo = match nibble(s[k + 1]) {
            Some(d) => d,
            None => {
                proof {
                    lemma_first_invalid_at(h, 2 * i + 1);
                }
                return Err(DecodeError::InvalidDigit(s[k + 1]));
            },
        };
        res.set_byte(i, hi * 16 + lo);
        i = i + 1;
    }
    proof {
        lemma_all_valid(h);
        assert(res.bytes() == decoded(h));
    }
    Ok(res)
}

/// An error decoding a hex string.
#[derive(Debug, PartialEq, Eq, Structural)]
pub enum DecodeError {
    /// The hex string has an odd number of digits.
    OddLength,
    /// Unexpected byte length.
    WrongLength(usize),
    /// The hex string contains an invalid digit.
    InvalidDigit(u8),
}

/// `0x` and the lowercase hexadecimal digits of `b`, without leading zeros.
pub open spec fn byte_literal(b: u8) -> Seq<char> {
    if b < 16 {
        "0x"@.push(hex_digit(b as nat))
    } else {
        "0x"@.push(hex_digit((b / 16) as nat)).push(hex_digit((b % 16) as nat))
    }
}

/// A description of the error `e`.
pub open spec fn decode_error_text(e: DecodeError) -> Seq<char> {
    match e {
        DecodeError::OddLength => "odd number of hex digits"@,
        DecodeError::WrongLength(len) => "wrong byte length of "@ + decimal(len as nat),
        DecodeError::InvalidDigit(d) => "invalid hex digit "@ + byte_literal(d),
    }
}

impl DecodeError {
    /// A description of the error.
    pub fn message(&self) -> (r: String)
        ensures
            r@ == decode_error_text(*self),
    {
        match *self {
            DecodeError::OddLength => String::from_str("odd number of hex digits"),
            DecodeError::WrongLength(len) => {
                let mut s = String::from_str("wrong byte length of ");
                push_decimal(&mut s, len);
                s
            },
            DecodeError::InvalidDigit(d) => {
                let mut s = String::from_str("invalid hex digit 0x");
                proof {
                    reveal_strlit("invalid hex digit 0x");
                    reveal_strlit("invalid hex digit ");
                    reveal_strlit("0x");
                }
                assert(s@ =~= "invalid hex digit "@ + "0x"@);
                if d >= 16 {
                    push_hex_digit(&mut s, d / 16, false);
                }
                push_hex_digit(&mut s, d % 16, false);
                assert(s@ =~= decode_error_text(*self));
                s
            },
        }
    }
}

} // verus!

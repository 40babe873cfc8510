use crate::text::digit_char;
use vstd::prelude::*;
use vstd::string::StringExecFns;

verus! {

/// The lowercase hexadecimal digit of `n`.
pub open spec fn hex_digit(n: nat) -> char {
    if n < 10 {
        digit_char(n)
    } else if n == 10 {
        'a'
    } else if n == 11 {
        'b'
    } else if n == 12 {
        'c'
    } else if n == 13 {
        'd'
    } else if n == 14 {
        'e'
    } else {
        'f'
    }
}

/// The uppercase hexadecimal digit of `n`.
pub open spec fn hex_digit_upper(n: nat) -> char {
    if n < 10 {
        digit_char(n)
    } else if n == 10 {
        'A'
    } else if n == 11 {
        'B'
    } else if n == 12 {
        'C'
    } else if n == 13 {
        'D'
    } else if n == 14 {
        'E'
    } else {
        'F'
    }
}

/// The `i`-th nibble of `b`, high nibble of each byte first.
pub open spec fn nibble_at(b: Seq<u8>, i: int) -> nat {
    if i % 2 == 0 {
        (b[i / 2] / 16) as nat
    } else {
        (b[i / 2] % 16) as nat
    }
}

/// Lowercase hexadecimal spelling of `b`, two digits per byte.
pub open spec fn hex_of(b: Seq<u8>) -> Seq<char> {
    Seq::new(2 * b.len(), |i: int| hex_digit(nibble_at(b, i)))
}

/// The ASCII codes of the lowercase hexadecimal spelling of `b`.
pub open spec fn hex_ascii_of(b: Seq<u8>) -> Seq<u8> {
    Seq::new(2 * b.len(), |i: int| hex_ascii(nibble_at(b, i)))
}

/// The ASCII code of the lowercase hexadecimal digit of `n`.
pub open spec fn hex_ascii(n: nat) -> u8 {
    if n < 10 {
        (48 + n) as u8
    } else {
        (87 + n) as u8
    }
}

/// The one-character string of the hexadecimal digit of `n`, uppercase if
/// `upper`.
fn hex_digit_str(n: u8, upper: bool) -> (r: &'static str)
    requires
        n < 16,
    ensures
        r@ == seq![
            if upper {
                hex_digit_upper(n as nat)
            } else {
                hex_digit(n as nat)
            },
        ],
{
    proof {
        reveal_strlit("0");
        reveal_strlit("1");
        reveal_strlit("2");
        reveal_strlit("3");
        reveal_strlit("4");
        reveal_strlit("5");
        reveal_strlit("6");
        reveal_strlit("7");
        reveal_strlit("8");
        reveal_strlit("9");
        reveal_strlit("a");
        reveal_strlit("b");
        reveal_strlit("c");
        reveal_strlit("d");
        reveal_strlit("e");
        reveal_strlit("f");
        reveal_strlit("A");
        reveal_strlit("B");
        reveal_strlit("C");
        reveal_strlit("D");
        reveal_strlit("E");
        reveal_strlit("F");
    }
    let r = if n == 0 {
        "0"
    } else if n == 1 {
        "1"
    } else if n == 2 {
        "2"
    } else if n == 3 {
        "3"
    } else if n == 4 {
        "4"
    } else if n == 5 {
        "5"
    } else if n == 6 {
        "6"
    } else if n == 7 {
        "7"
    } else if n == 8 {
        "8"
    } else if n == 9 {
        "9"
    } else if n == 10 {
        if upper {
            "A"
        } else {
            "a"
        }
    } else if n == 11 {
        if upper {
            "B"
        } else {
            "b"
        }
    } else if n == 12 {
        if upper {
            "C"
        } else {
            "c"
        }
    } else if n == 13 {
        if upper {
            "D"
        } else {
            "d"
        }
    } else if n == 14 {
        if upper {
            "E"
        } else {
            "e"
        }
    } else if upper {
        "F"
    } else {
        "f"
    };
    assert(r@ =~= seq![
        if upper {
            hex_digit_upper(n as nat)
        } else {
            hex_digit(n as nat)
        },
    ]);
    r
}

/// Appends the hexadecimal digit of `n` to `s`, uppercase if `upper`.
pub fn push_hex_digit(s: &mut String, n: u8, upper: bool)
    requires
        n < 16,
    ensures
        final(s)@ == old(s)@.push(
            if upper {
                hex_digit_upper(n as nat)
            } else {
                hex_digit(n as nat)
            },
        ),
{
    s.append(hex_digit_str(n, upper));
}

/// Appends the lowercase hexadecimal spelling of `b` to `s`.
pub fn push_hex(s: &mut String, b: &[u8])
    ensures
        final(s)@ == old(s)@ + hex_of(b@),
{
    let ghost start = s@;
    let mut i: usize = 0;
    while i < b.len()
        invariant
            i <= b@.len(),
            s@ == start + hex_of(b@).take(2 * i),
        decreases b.len() - i,
    {
        push_hex_digit(s, b[i] / 16, false);
        push_hex_digit(s, b[i] % 16, false);
        assert(hex_of(b@).take(2 * i + 2) =~= hex_of(b@).take(2 * i).push(
            hex_digit(nibble_at(b@, 2 * i)),
        ).push(hex_digit(nibble_at(b@, 2 * i + 1))));
        i = i + 1;
    }
    assert(hex_of(b@).take(2 * i) =~= hex_of(b@));
}

/// The ASCII codes of the lowercase hexadecimal spelling of `b`.
pub fn hex_ascii_bytes(b: &[u8]) -> (r: Vec<u8>)
    ensures
        r@ == hex_ascii_of(b@),
{
    let mut r: Vec<u8> = Vec::new();
    let mut i: usize = 0;
    while i < b.len()
        invariant
            i <= b@.len(),
            r@ == hex_ascii_of(b@).take(2 * i),
        decreases b.len() - i,
    {
        let hi = b[i] / 16;
        let lo = b[i] % 16;
        r.push(if hi < 10 { 48 + hi } else { 87 + hi });
        r.push(if lo < 10 { 48 + lo } else { 87 + lo });
        assert(hex_ascii_of(b@).take(2 * i + 2) =~= hex_ascii_of(b@).take(2 * i).push(
            hex_ascii(nibble_at(b@, 2 * i)),
        ).push(hex_ascii(nibble_at(b@, 2 * i + 1))));
        i = i + 1;
    }
    assert(hex_ascii_of(b@).take(2 * i) =~= hex_ascii_of(b@));
    r
}

/// A byte slice to be written as a hexadecimal string.
pub struct Hex<'a>(pub &'a [u8]);

impl<'a> Hex<'a> {
    /// The lowercase hexadecimal spelling of the bytes.
    pub fn to_string(&self) -> (r: String)
        ensures
            r@ == hex_of(self.0@),
    {
        let mut s = String::new();
        push_hex(&mut s, self.0);
        assert(s@ =~= hex_of(self.0@));
        s
    }

    /// The lowercase hexadecimal spelling of the bytes after `0x`.
    pub fn to_prefixed_string(&self) -> (r: String)
        ensures
            r@ == "0x"@ + hex_of(self.0@),
    {
        let mut s = String::from_str("0x");
        push_hex(&mut s, self.0);
        s
    }
}

} // verus!

//! Read-only rendering of the stored public key and signature.
use crate::abi;
use crate::address::{address_of, checksummed, Address};
use crate::ceremony::{CommandError, Files};
use crate::curve::{Coord, Point, Scalar, Signature};
use crate::engine::{key_point, public_key_point, signature_of, signature_parts};
use crate::evm::{is_supported, supported};
use crate::fmt::{hex_of, Hex};
use crate::store::Store;
use crate::workspace::{public_key_name, signature_name, Artifact};
use vstd::prelude::*;
use vstd::string::StringExecFns;

verus! {

/// `{0x<x>,0x<y>}` for the point `p`.
pub open spec fn coord_text(p: Point) -> Seq<char> {
    "{0x"@ + hex_of(p.x@) + ",0x"@ + hex_of(p.y@) + "}"@
}

/// What `info public-key` shows for `key`: with `abi`, the hexadecimal ABI
/// encoding of its address and coordinates; else its checksummed address
/// and its coordinates, one per line.
pub open spec fn public_key_output(key: Point, abi: bool) -> Seq<char> {
    if abi {
        hex_of(Seq::new(12, |i: int| 0u8) + address_of(key) + key.x@ + key.y@)
    } else {
        "address:    0x"@ + checksummed(address_of(key)) + "\npublic key: "@ + coord_text(key)
            + "\n"@
    }
}

/// What `info signature` shows for `sig`, with the public key `key` if
/// given: with `abi`, the hexadecimal ABI encoding of the key, `R` and `z`;
/// else one line for each.
pub open spec fn signature_output(sig: Signature, key: Option<Point>, abi: bool) -> Seq<char> {
    if abi {
        hex_of(
            match key {
                Some(k) => k.x@ + k.y@,
                None => Seq::empty(),
            } + sig.r.x@ + sig.r.y@ + sig.z@,
        )
    } else {
        match key {
            Some(k) => "public key: "@ + coord_text(k) + "\nR:          "@ + coord_text(sig.r)
                + "\nz:          0x"@ + hex_of(sig.z@) + "\n"@,
            None => "R: "@ + coord_text(sig.r) + "\nz: 0x"@ + hex_of(sig.z@) + "\n"@,
        }
    }
}

/// Renders the public key `key`.
pub fn format_public_key(key: &Point, abi_encode: bool) -> (r: String)
    ensures
        r@ == public_key_output(*key, abi_encode),
{
    let address = Address::from_key(key);
    if abi_encode {
        let mut buf: Vec<u8> = Vec::new();
        abi::append_words(&mut buf, &abi::address(address));
        abi::append_words(&mut buf, &abi::coord(key));
        let r = Hex(buf.as_slice()).to_string();
        assert(buf@ =~= Seq::new(12, |i: int| 0u8) + address_of(*key) + key.x@ + key.y@);
        r
    } else {
        let mut s = String::from_str("address:    ");
        s.append(address.to_string().as_str());
        s.append("\npublic key: ");
        s.append(Coord(key).to_string().as_str());
        s.append("\n");
        proof {
            reveal_strlit("address:    ");
            reveal_strlit("address:    0x");
            reveal_strlit("0x");
        }
        assert("address:    "@ + "0x"@ =~= "address:    0x"@);
        assert(s@ =~= public_key_output(*key, abi_encode));
        s
    }
}

/// Renders the signature `sig`, with the public key `key` if given.
pub fn format_signature(sig: &Signature, key: Option<&Point>, abi_encode: bool) -> (r: String)
    ensures
        r@ == signature_output(
            *sig,
            match key {
                Some(k) => Some(*k),
                None => None,
            },
            abi_encode,
        ),
{
    if abi_encode {
        let mut buf: Vec<u8> = Vec::new();
        if let Some(k) = key {
            abi::append_words(&mut buf, &abi::coord(k));
        }
        abi::append_words(&mut buf, &abi::coord(&sig.r));
        abi::append_words(&mut buf, &abi::scalar(&sig.z));
        let r = Hex(buf.as_slice()).to_string();
        assert(buf@ =~= match key {
            Some(k) => k.x@ + k.y@,
            None => Seq::empty(),
        } + sig.r.x@ + sig.r.y@ + sig.z@);
        r
    } else if let Some(k) = key {
        let mut s = String::from_str("public key: ");
        s.append(Coord(k).to_string().as_str());
        s.append("\nR:          ");
        s.append(Coord(&sig.r).to_string().as_str());
        s.append("\nz:          ");
        s.append(Scalar(&sig.z).to_string().as_str());
        s.append("\n");
        proof {
            reveal_strlit("\nz:          ");
            reveal_strlit("\nz:          0x");
            reveal_strlit("0x");
        }
        assert("\nz:          "@ + "0x"@ =~= "\nz:          0x"@);
        assert(s@ =~= signature_output(*sig, Some(*k), abi_encode));
        s
    } else {
        let mut s = String::from_str("R: ");
        s.append(Coord(&sig.r).to_string().as_str());
        s.append("\nz: ");
        s.append(Scalar(&sig.z).to_string().as_str());
        s.append("\n");
        proof {
            reveal_strlit("\nz: ");
            reveal_strlit("\nz: 0x");
            reveal_strlit("0x");
        }
        assert("\nz: "@ + "0x"@ =~= "\nz: 0x"@);
        assert(s@ =~= signature_output(*sig, None, abi_encode));
        s
    }
}

/// What `info public-key` may give: the rendering of the stored key when
/// it decodes and the EVM verifier supports it.
pub open spec fn public_key_info_outcome(files: Files, abi: bool, r: Result<String, CommandError>) -> bool {
    if !files.contains_key(public_key_name()) {
        r == Err::<String, CommandError>(CommandError::Missing(Artifact::PublicKey))
    } else {
        match key_point(files[public_key_name()]) {
            None => r matches Err(CommandError::Engine(_)),
            Some(k) => if supported(k) {
                r matches Ok(s) && s@ == public_key_output(k, abi)
            } else {
                r == Err::<String, CommandError>(CommandError::NotSupported)
            },
        }
    }
}

/// What `info signature` may give: the rendering of the stored signature
/// when it decodes, with the stored key if asked, which must then decode
/// and be supported by the EVM verifier.
pub open spec fn signature_info_outcome(
    files: Files,
    with_public_key: bool,
    abi: bool,
    r: Result<String, CommandError>,
) -> bool {
    if !files.contains_key(signature_name()) {
        r == Err::<String, CommandError>(CommandError::Missing(Artifact::Signature))
    } else {
        match signature_of(files[signature_name()]) {
            None => r matches Err(CommandError::Engine(_)),
            Some(sig) => if !with_public_key {
                r matches Ok(s) && s@ == signature_output(sig, None, abi)
            } else if !files.contains_key(public_key_name()) {
                r == Err::<String, CommandError>(CommandError::Missing(Artifact::PublicKey))
            } else {
                match key_point(files[public_key_name()]) {
                    None => r matches Err(CommandError::Engine(_)),
                    Some(k) => if supported(k) {
                        r matches Ok(s) && s@ == signature_output(sig, Some(k), abi)
                    } else {
                        r == Err::<String, CommandError>(CommandError::NotSupported)
                    },
                }
            },
        }
    }
}

/// Shows the stored public key, which must be supported by the EVM verifier.
pub fn public_key_info(store: &Store, abi_encode: bool) -> (r: Result<String, CommandError>)
    ensures
        public_key_info_outcome(store@, abi_encode, r),
{
    let data = match store.get(Artifact::PublicKey.name().as_str()) {
        Some(v) => v,
        None => return Err(CommandError::Missing(Artifact::PublicKey)),
    };
    let key = match public_key_point(data.as_slice()) {
        Ok(p) => p,
        Err(e) => return Err(CommandError::Engine(e)),
    };
    if !is_supported(&key) {
        return Err(CommandError::NotSupported);
    }
    Ok(format_public_key(&key, abi_encode))
}

/// Shows the stored signature, and the public key if `with_public_key`,
/// which must then be supported by the EVM verifier.
pub fn signature_info(store: &Store, with_public_key: bool, abi_encode: bool) -> (r: Result<
    String,
    CommandError,
>)
    ensures
        signature_info_outcome(store@, with_public_key, abi_encode, r),
{
    let data = match store.get(Artifact::Signature.name().as_str()) {
        Some(v) => v,
        None => return Err(CommandError::Missing(Artifact::Signature)),
    };
    let sig = match signature_parts(data.as_slice()) {
        Ok(s) => s,
        Err(e) => return Err(CommandError::Engine(e)),
    };
    if with_public_key {
        let data = match store.get(Artifact::PublicKey.name().as_str()) {
            Some(v) => v,
            None => return Err(CommandError::Missing(Artifact::PublicKey)),
        };
        let key = match public_key_point(data.as_slice()) {
            Ok(p) => p,
            Err(e) => return Err(CommandError::Engine(e)),
        };
        if !is_supported(&key) {
            return Err(CommandError::NotSupported);
        }
        Ok(format_signature(&sig, Some(&key), abi_encode))
    } else {
        Ok(format_signature(&sig, None, abi_encode))
    }
}

} // verus!

//! Public-key values accepted by the encoder: a closed tagged union over
//! the three key shapes that appear in SSH key blobs.

use vstd::prelude::*;
use vstd::utf8::encode_utf8;

use crate::encoding::bytes_enc;
use crate::encoding::string_enc;

verus! {

/// An elliptic-curve public key: the curve identifier token and the raw
/// public point bytes.
pub struct EcdsaPublicKey {
    pub curve: String,
    pub key: Vec<u8>,
}

/// An RSA public key: big-endian magnitudes of the modulus `n` and the
/// public exponent `e`.
pub struct RsaPublicKey {
    pub n: Vec<u8>,
    pub e: Vec<u8>,
}

/// An Ed25519 public key: the raw key bytes.
pub struct Ed25519PublicKey {
    pub key: Vec<u8>,
}

/// Exactly one variant is active per key value; the encoder dispatches on
/// the variant and never inspects the byte contents.
pub enum PublicKeyKind {
    Ecdsa(EcdsaPublicKey),
    Rsa(RsaPublicKey),
    Ed25519(Ed25519PublicKey),
}

/// A public key as written into a key blob.
pub struct PublicKey {
    pub kind: PublicKeyKind,
}

/// Every length field of the key record fits the 4-byte length prefix.
pub open spec fn pub_key_fits(key: PublicKey) -> bool {
    match key.kind {
        PublicKeyKind::Ecdsa(k) => encode_utf8(k.curve@).len() <= u32::MAX && k.key@.len()
            <= u32::MAX,
        PublicKeyKind::Rsa(k) => k.n@.len() <= u32::MAX && k.e@.len() <= u32::MAX,
        PublicKeyKind::Ed25519(k) => k.key@.len() <= u32::MAX,
    }
}

/// Wire layout of a key record, with no outer envelope: the curve
/// identifier then the point for an EC key, `n` then `e` for an RSA key
/// (both verbatim, with no `mpint` canonicalization), and the raw key bytes
/// for an Ed25519 key.
pub open spec fn pub_key_enc(key: PublicKey) -> Seq<u8> {
    match key.kind {
        PublicKeyKind::Ecdsa(k) => string_enc(k.curve@) + bytes_enc(k.key@),
        PublicKeyKind::Rsa(k) => bytes_enc(k.n@) + bytes_enc(k.e@),
        PublicKeyKind::Ed25519(k) => bytes_enc(k.key@),
    }
}

} // verus!

//! Key generation and the derivation of the account address:
//! private scalar, uncompressed public key, Keccak-256, last 20 bytes.

use vstd::prelude::*;
use vstd::slice::slice_subrange;
use vstd::slice::slice_to_vec;

use k256::ecdsa::SigningKey;
use k256::elliptic_curve::rand_core::OsRng;
use k256::elliptic_curve::sec1::ToEncodedPoint;
use sha3::Digest;
use sha3::Keccak256;

use crate::address::AccountAddress;
use crate::text::encode_hex;
use crate::text::spec_hex_encode;

verus! {

/// A 32-byte secp256k1 secret scalar.
#[derive(Debug)]
pub struct PrivateKey {
    pub bytes: Vec<u8>,
}

impl View for PrivateKey {
    type V = Seq<u8>;

    open spec fn view(&self) -> Seq<u8> {
        self.bytes@
    }
}

impl PrivateKey {
    /// A private key always holds exactly 32 bytes.
    pub open spec fn wf(&self) -> bool {
        self@.len() == 32
    }

    /// The key as 64 lower-case hexadecimal characters.
    pub fn to_hex_string(&self) -> (r: String)
        ensures
            r@ == spec_hex_encode(self@),
    {
        encode_hex(&self.bytes)
    }
}

/// The value of a byte string read as a big-endian integer.
pub open spec fn spec_be_value(b: Seq<u8>) -> nat
    decreases b.len(),
{
    if b.len() == 0 {
        0
    } else {
        spec_be_value(b.drop_last()) * 256 + b.last() as nat
    }
}

/// The order of the secp256k1 group,
/// 0xFFFFFFFFFFFFFFFFFFFFFFFFFFFFFFFEBAAEDCE6AF48A03BBFD25E8CD0364141,
/// assembled from its two 128-bit halves.
pub open spec fn secp256k1_order() -> nat {
    (0xFFFFFFFFFFFFFFFFFFFFFFFFFFFFFFFE as nat) * 0x10000000000000000 * 0x10000000000000000
        + 0xBAAEDCE6AF48A03BBFD25E8CD0364141
}

/// A valid secret scalar: 32 bytes whose big-endian value is neither
/// zero nor at or above the group order.
pub open spec fn spec_is_valid_scalar(b: Seq<u8>) -> bool {
    b.len() == 32 && 0 < spec_be_value(b) < secp256k1_order()
}

/// The 65-byte uncompressed SEC1 encoding — tag byte 0x04, then the X
/// and Y coordinates — of the public key of a private scalar.
pub uninterp spec fn spec_uncompressed_public_key(private_key: Seq<u8>) -> Seq<u8>;

/// The 32-byte Keccak-256 digest of a byte string.
pub uninterp spec fn spec_keccak256(data: Seq<u8>) -> Seq<u8>;

/// The account address of an uncompressed public key: the last 20
/// bytes of the Keccak-256 digest of the key's 64 coordinate bytes,
/// the leading tag byte excluded.
pub open spec fn spec_address_from_public_key(public_key: Seq<u8>) -> Seq<u8> {
    spec_keccak256(public_key.subrange(1, 65)).subrange(12, 32)
}

/// The account address that a private key derives to.
pub open spec fn spec_address_from_private_key(private_key: Seq<u8>) -> Seq<u8> {
    spec_address_from_public_key(spec_uncompressed_public_key(private_key))
}

/// Relies on k256's `SigningKey::random` over the operating system's
/// entropy source, and on `SigningKey::to_bytes`: the draw samples,
/// rejecting zero and out-of-range candidates, until it holds a valid
/// nonzero scalar, and encodes it as 32 big-endian bytes. Which valid
/// scalar comes back is random; that it is valid is guaranteed.
#[verifier::external_body]
fn random_private_key_bytes() -> (r: Vec<u8>)
    ensures
        r@.len() == 32,
        spec_is_valid_scalar(r@),
{
    let key = SigningKey::random(&mut OsRng);
    key.to_bytes().to_vec()
}

/// Relies on k256: `SigningKey::from_slice` accepts a 32-byte encoding
/// exactly when its big-endian value is a nonzero scalar below the
/// group order, and `VerifyingKey::to_encoded_point(false)` returns
/// the 65-byte uncompressed SEC1 encoding — tag byte 0x04, then X and
/// Y — of the matching public key, a function of the private key alone.
#[verifier::external_body]
fn uncompressed_public_key(private_key: &Vec<u8>) -> (r: Option<Vec<u8>>)
    requires
        private_key@.len() == 32,
    ensures
        r is Some <==> spec_is_valid_scalar(private_key@),
        r matches Some(p) ==> p@ == spec_uncompressed_public_key(private_key@) && p@.len() == 65
            && p@[0] == 4,
{
    let key = match SigningKey::from_slice(private_key.as_slice()) {
        Ok(key) => key,
        Err(_) => return None,
    };
    let point = key.verifying_key().to_encoded_point(false);
    Some(point.as_bytes().to_vec())
}

/// Relies on sha3's `Keccak256` (the pre-standardization Keccak, not
/// NIST SHA3-256): a 32-byte digest, a function of the input alone.
#[verifier::external_body]
fn keccak256(data: &[u8]) -> (r: Vec<u8>)
    ensures
        r@ == spec_keccak256(data@),
        r@.len() == 32,
{
    let mut hasher = Keccak256::new();
    hasher.update(data);
    hasher.finalize().to_vec()
}

/// The account address of a 65-byte uncompressed public key: the tag
/// byte is stripped, the 64 coordinate bytes are hashed with
/// Keccak-256, and the digest's last 20 bytes are the address.
pub fn address_from_public_key(public_key: &Vec<u8>) -> (r: AccountAddress)
    requires
        public_key@.len() == 65,
    ensures
        r.wf(),
        r@ == spec_address_from_public_key(public_key@),
{
    let coordinates = slice_subrange(public_key.as_slice(), 1, 65);
    let digest = keccak256(coordinates);
    let tail = slice_subrange(digest.as_slice(), 12, 32);
    let bytes = slice_to_vec(tail);
    AccountAddress { bytes }
}

/// The address derived from a private key. It succeeds exactly when
/// the bytes are a valid secret scalar — nonzero and below the group
/// order, read big-endian.
pub fn address_from_private_key(private_key: &PrivateKey) -> (r: Option<AccountAddress>)
    requires
        private_key.wf(),
    ensures
        r is Some <==> spec_is_valid_scalar(private_key@),
        r matches Some(a) ==> a.wf() && a@ == spec_address_from_private_key(private_key@),
{
    match uncompressed_public_key(&private_key.bytes) {
        Some(public_key) => Some(address_from_public_key(&public_key)),
        None => None,
    }
}

/// A freshly generated private key with its derived account address.
#[derive(Debug)]
pub struct Wallet {
    pub private_key: PrivateKey,
    pub address: AccountAddress,
}

impl Wallet {
    /// The key and address have their fixed sizes, and the address is
    /// the one the private key derives to.
    pub open spec fn wf(&self) -> bool {
        self.private_key.wf() && self.address.wf() && self.address@
            == spec_address_from_private_key(self.private_key@)
    }
}

/// Draws a fresh random private key and derives its account address.
/// This always yields a wallet: the draw returns only valid scalars,
/// and a failing entropy source aborts inside the draw itself.
pub fn generate_wallet() -> (r: Option<Wallet>)
    ensures
        r is Some,
        r matches Some(w) ==> w.wf(),
{
    let bytes = random_private_key_bytes();
    let private_key = PrivateKey { bytes };
    match address_from_private_key(&private_key) {
        Some(address) => Some(Wallet { private_key, address }),
        None => None,
    }
}

/// Address derivation is deterministic: re-deriving the public key and
/// re-running the hash from the same private key yields the identical
/// account address.
pub proof fn lemma_derivation_deterministic(private_key: Seq<u8>, a1: Seq<u8>, a2: Seq<u8>)
    requires
        a1 == spec_address_from_private_key(private_key),
        a2 == spec_address_from_private_key(private_key),
    ensures
        a1 == a2,
{
}

} // verus!

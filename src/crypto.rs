//! Cryptographic primitives supplied by outside crates.
//!
//! Each primitive's result is given a name over plain byte sequences; the
//! protocol logic is stated and verified over those names.

use aes::cipher::generic_array::GenericArray;
use aes::{Aes128, BlockEncrypt, NewBlockCipher};
use block_modes::block_padding::Iso7816;
use block_modes::{BlockMode, Cbc};
use clear_on_drop::clear::Clear;
use cmac::{Cmac, Mac, NewMac};
use hmac::Hmac;
use rand::RngCore;
use sha2::{Digest, Sha256};
use subtle::ConstantTimeEq;
use vstd::prelude::*;

verus! {

/// The CMAC-AES-128 tag of `msg` under `key`.
pub uninterp spec fn cmac_of(key: Seq<u8>, msg: Seq<u8>) -> Seq<u8>;

/// One AES-128 block encryption of `block` under `key`.
pub uninterp spec fn aes_block_of(key: Seq<u8>, block: Seq<u8>) -> Seq<u8>;

/// AES-128-CBC encryption of `plaintext` under `key` and `iv`, with ISO/IEC 7816-4 padding.
pub uninterp spec fn cbc_encrypt_of(key: Seq<u8>, iv: Seq<u8>, plaintext: Seq<u8>) -> Seq<u8>;

/// PBKDF2 with HMAC-SHA-256, 32 bytes of output.
pub uninterp spec fn pbkdf2_sha256_of(password: Seq<u8>, salt: Seq<u8>, rounds: u32) -> Seq<u8>;

/// The SHA-256 digest of `data`.
pub uninterp spec fn sha256_of(data: Seq<u8>) -> Seq<u8>;

/// Length of a CBC ciphertext with ISO/IEC 7816-4 padding: the padding always
/// adds between one and sixteen bytes, up to a whole number of blocks.
pub open spec fn padded_len(n: nat) -> nat {
    (n / 16 + 1) * 16
}

/// Relies on `cmac::Cmac<aes::Aes128>`: the 16-byte tag over `msg`.
#[verifier::external_body]
pub(crate) fn cmac_aes128(key: &[u8; 16], msg: &[u8]) -> (r: [u8; 16])
    ensures
        r@ == cmac_of(key@, msg@),
{
    let mut mac = Cmac::<Aes128>::new(GenericArray::from_slice(key));
    mac.update(msg);
    let tag = mac.finalize().into_bytes();
    let mut out = [0u8; 16];
    out.copy_from_slice(&tag);
    out
}

/// Relies on `aes::Aes128::encrypt_block`: one block encrypted under `key`.
#[verifier::external_body]
pub(crate) fn aes128_encrypt_block(key: &[u8; 16], block: &[u8; 16]) -> (r: [u8; 16])
    ensures
        r@ == aes_block_of(key@, block@),
{
    let cipher = Aes128::new(GenericArray::from_slice(key));
    let mut b = GenericArray::clone_from_slice(block);
    cipher.encrypt_block(&mut b);
    let mut out = [0u8; 16];
    out.copy_from_slice(&b);
    out
}

/// Relies on `block_modes::Cbc<Aes128, Iso7816>::encrypt_vec`: the padded
/// ciphertext, a whole number of blocks.
#[verifier::external_body]
pub(crate) fn cbc_encrypt(key: &[u8; 16], iv: &[u8; 16], plaintext: &[u8]) -> (r: Vec<u8>)
    ensures
        r@ == cbc_encrypt_of(key@, iv@, plaintext@),
        r@.len() == padded_len(plaintext@.len()),
{
    let cipher = Aes128::new(GenericArray::from_slice(key));
    Cbc::<Aes128, Iso7816>::new(cipher, GenericArray::from_slice(iv)).encrypt_vec(plaintext)
}

/// Relies on `block_modes::Cbc<Aes128, Iso7816>::decrypt_vec`: decryption under
/// the same key and IV undoes `encrypt_vec`, padding included.
#[verifier::external_body]
pub(crate) fn cbc_decrypt(key: &[u8; 16], iv: &[u8; 16], ciphertext: &[u8]) -> (r: Option<Vec<u8>>)
    ensures
        forall|p: Seq<u8>|
            #[trigger] cbc_encrypt_of(key@, iv@, p) == ciphertext@ ==> r.is_some() && r.unwrap()@
                == p,
{
    let cipher = Aes128::new(GenericArray::from_slice(key));
    Cbc::<Aes128, Iso7816>::new(cipher, GenericArray::from_slice(iv)).decrypt_vec(ciphertext).ok()
}

/// Relies on `pbkdf2::pbkdf2::<Hmac<Sha256>>`: 32 bytes derived from the inputs.
#[verifier::external_body]
pub(crate) fn pbkdf2_hmac_sha256(password: &[u8], salt: &[u8], rounds: u32) -> (r: [u8; 32])
    ensures
        r@ == pbkdf2_sha256_of(password@, salt@, rounds),
{
    let mut out = [0u8; 32];
    pbkdf2::pbkdf2::<Hmac<Sha256>>(password, salt, rounds, &mut out);
    out
}

/// Relies on `sha2::Sha256::digest`: the 32-byte digest of `data`.
#[verifier::external_body]
pub(crate) fn sha256(data: &[u8]) -> (r: [u8; 32])
    ensures
        r@ == sha256_of(data@),
{
    let digest = Sha256::digest(data);
    let mut out = [0u8; 32];
    out.copy_from_slice(&digest);
    out
}

/// Relies on `subtle::ConstantTimeEq` for slices: true exactly when both slices
/// hold the same bytes, compared in time independent of their contents.
#[verifier::external_body]
pub(crate) fn constant_time_eq(a: &[u8], b: &[u8]) -> (r: bool)
    ensures
        r == (a@ == b@),
{
    bool::from(a.ct_eq(b))
}

/// Relies on `rand::rngs::OsRng::try_fill_bytes`: eight bytes from the
/// operating system's secure random source, or `None` when it fails.
#[verifier::external_body]
pub(crate) fn os_random_8() -> (r: Option<[u8; 8]>) {
    let mut buf = [0u8; 8];
    match rand::rngs::OsRng.try_fill_bytes(&mut buf) {
        Ok(()) => Some(buf),
        Err(_) => None,
    }
}

/// Relies on `rand::rngs::OsRng::try_fill_bytes` for sixteen random bytes
/// and on `uuid::Builder::from_random_bytes` to make them a version-4 UUID:
/// a random request identifier, or `None` when the random source fails.
#[verifier::external_body]
pub(crate) fn random_correlation_id() -> (r: Option<u128>) {
    let mut bytes = [0u8; 16];
    match rand::rngs::OsRng.try_fill_bytes(&mut bytes) {
        Ok(()) => Some(uuid::Builder::from_random_bytes(bytes).into_uuid().as_u128()),
        Err(_) => None,
    }
}

/// Relies on `clear_on_drop::clear::Clear` for byte slices: every byte is
/// overwritten with zero in a way the compiler does not elide.
#[verifier::external_body]
pub(crate) fn wipe(buf: &mut [u8])
    ensures
        final(buf)@ == Seq::new(old(buf)@.len(), |i: int| 0u8),
    opens_invariants none
    no_unwind
{
    buf.clear();
}

} // verus!

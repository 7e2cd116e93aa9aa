//! Long-term keys, challenges, cryptograms and session-key derivation.

use crate::crypto::{
    cmac_aes128, cmac_of, constant_time_eq, os_random_8, pbkdf2_hmac_sha256, pbkdf2_sha256_of,
    wipe,
};
use crate::message::{be16, push_be16, extend_bytes};
use vstd::prelude::*;

verus! {

/// Size of each long-term and session key.
pub const KEY_SIZE: usize = 16;

/// Size of a challenge.
pub const CHALLENGE_SIZE: usize = 8;

/// Size of a cryptogram.
pub const CRYPTOGRAM_SIZE: usize = 8;

/// Derivation label of the device's cryptogram.
pub const CARD_CRYPTOGRAM_LABEL: u8 = 0x00;

/// Derivation label of the host's cryptogram.
pub const HOST_CRYPTOGRAM_LABEL: u8 = 0x01;

/// Derivation label of the session encryption key.
pub const S_ENC_LABEL: u8 = 0x04;

/// Derivation label of the session command-MAC key.
pub const S_MAC_LABEL: u8 = 0x06;

/// Derivation label of the session response-MAC key.
pub const S_RMAC_LABEL: u8 = 0x07;

/// Salt used when deriving static keys from a password: the bytes of "Yubico".
pub const PBKDF2_SALT: [u8; 6] = [0x59, 0x75, 0x62, 0x69, 0x63, 0x6f];

/// Iterations used when deriving static keys from a password.
pub const PBKDF2_ITERATIONS: u32 = 10000;

/// Errors of key handling and the handshake.
#[derive(Clone, Copy, Debug, PartialEq, Eq, Structural)]
pub enum KeyError {
    /// A key is not exactly `KEY_SIZE` bytes long.
    InvalidLength,
    /// The secure random source failed.
    RandomSourceFailed,
}

/// The input block of the counter-mode key derivation: eleven zero bytes, the
/// label, a zero separator, the output length in bits, the block counter
/// (always 1: one CMAC block suffices) and the context.
pub open spec fn kdf_input(label: u8, out_bits: u16, context: Seq<u8>) -> Seq<u8> {
    Seq::new(11, |i: int| 0u8) + seq![label, 0u8] + be16(out_bits as nat) + seq![1u8] + context
}

/// A 128-bit key derived from `key` for the purpose named by `label`.
pub open spec fn derive_key(key: Seq<u8>, label: u8, context: Seq<u8>) -> Seq<u8> {
    cmac_of(key, kdf_input(label, 128, context))
}

/// A 64-bit cryptogram derived from `key` for the role named by `label`.
pub open spec fn derive_cryptogram(key: Seq<u8>, label: u8, context: Seq<u8>) -> Seq<u8> {
    truncate_mac(cmac_of(key, kdf_input(label, 64, context)))
}

/// The first eight bytes of a MAC, the part carried on the wire.
pub open spec fn truncate_mac(m: Seq<u8>) -> Seq<u8> {
    Seq::new(8, |i: int| m[i])
}

/// Both challenges, host first: the context of every derivation.
pub open spec fn handshake_context(host: Seq<u8>, card: Seq<u8>) -> Seq<u8> {
    host + card
}

/// The three session keys (encryption, command MAC, response MAC) for the
/// given static keys and challenges.
pub open spec fn session_keys(
    static_enc: Seq<u8>,
    static_mac: Seq<u8>,
    host: Seq<u8>,
    card: Seq<u8>,
) -> (Seq<u8>, Seq<u8>, Seq<u8>) {
    let ctx = handshake_context(host, card);
    (
        derive_key(static_enc, S_ENC_LABEL, ctx),
        derive_key(static_mac, S_MAC_LABEL, ctx),
        derive_key(static_mac, S_RMAC_LABEL, ctx),
    )
}

/// The label of each role's cryptogram.
pub open spec fn role_label(role: Role) -> u8 {
    match role {
        Role::Host => HOST_CRYPTOGRAM_LABEL,
        Role::Card => CARD_CRYPTOGRAM_LABEL,
    }
}

/// The long-term keys shared with the device. Wiped when dropped.
pub struct StaticKeys {
    enc_key: [u8; 16],
    mac_key: [u8; 16],
}

impl StaticKeys {
    /// The encryption key.
    pub closed spec fn enc(&self) -> Seq<u8> {
        self.enc_key@
    }

    /// The MAC key.
    pub closed spec fn mac(&self) -> Seq<u8> {
        self.mac_key@
    }

    /// Keys from their bytes.
    pub fn new(enc_key: [u8; 16], mac_key: [u8; 16]) -> (r: StaticKeys)
        ensures
            r.enc() == enc_key@,
            r.mac() == mac_key@,
    {
        StaticKeys { enc_key, mac_key }
    }

    /// Keys from slices; fails with `InvalidLength` unless both are
    /// exactly `KEY_SIZE` bytes long.
    pub fn from_raw(enc_key: &[u8], mac_key: &[u8]) -> (r: Result<StaticKeys, KeyError>)
        ensures
            (enc_key@.len() == KEY_SIZE && mac_key@.len() == KEY_SIZE) <==> r is Ok,
            r matches Ok(k) ==> k.enc() == enc_key@ && k.mac() == mac_key@,
            r matches Err(e) ==> e == KeyError::InvalidLength,
    {
        if enc_key.len() != KEY_SIZE || mac_key.len() != KEY_SIZE {
            return Err(KeyError::InvalidLength);
        }
        Ok(StaticKeys { enc_key: to_array16(enc_key), mac_key: to_array16(mac_key) })
    }

    /// Keys derived from a password: PBKDF2-HMAC-SHA-256 over the password
    /// and salt, the first 16 bytes for encryption, the next 16 for MACs.
    pub fn derive_from_password(password: &[u8], salt: &[u8], iterations: u32) -> (r: StaticKeys)
        ensures
            r.enc() == pbkdf2_sha256_of(password@, salt@, iterations).subrange(0, 16),
            r.mac() == pbkdf2_sha256_of(password@, salt@, iterations).subrange(16, 32),
    {
        let out = pbkdf2_hmac_sha256(password, salt, iterations);
        let mut enc_key = [0u8; 16];
        let mut mac_key = [0u8; 16];
        let mut i: usize = 0;
        while i < 16
            invariant
                out@.len() == 32,
                i <= 16,
                forall|j: int| 0 <= j < i ==> enc_key@[j] == out@[j] && mac_key@[j] == out@[16 + j],
            decreases 16 - i,
        {
            enc_key[i] = out[i];
            mac_key[i] = out[16 + i];
            i = i + 1;
        }
        assert(enc_key@ == out@.subrange(0, 16));
        assert(mac_key@ == out@.subrange(16, 32));
        let mut out = out;
        wipe(&mut out);
        StaticKeys { enc_key, mac_key }
    }

    /// A copy of the encryption key.
    pub fn enc_key(&self) -> (r: [u8; 16])
        ensures
            r@ == self.enc(),
    {
        self.enc_key
    }

    /// A copy of the MAC key.
    pub fn mac_key(&self) -> (r: [u8; 16])
        ensures
            r@ == self.mac(),
    {
        self.mac_key
    }
}

impl Drop for StaticKeys {
    fn drop(&mut self)
        opens_invariants none
        no_unwind
    {
        wipe(&mut self.enc_key);
        wipe(&mut self.mac_key);
    }
}

/// Copy a 16-byte slice into an array.
pub(crate) fn to_array16(s: &[u8]) -> (r: [u8; 16])
    requires
        s@.len() == 16,
    ensures
        r@ == s@,
{
    let mut a = [0u8; 16];
    let mut i: usize = 0;
    while i < 16
        invariant
            s@.len() == 16,
            i <= 16,
            forall|j: int| 0 <= j < i ==> a@[j] == s@[j],
        decreases 16 - i,
    {
        a[i] = s[i];
        i = i + 1;
    }
    assert(a@ == s@);
    a
}

/// Copy the first eight bytes of a block.
pub(crate) fn first8(b: &[u8; 16]) -> (r: [u8; 8])
    ensures
        r@ == truncate_mac(b@),
{
    let mut a = [0u8; 8];
    let mut i: usize = 0;
    while i < 8
        invariant
            i <= 8,
            forall|j: int| 0 <= j < i ==> a@[j] == b@[j],
        decreases 8 - i,
    {
        a[i] = b[i];
        i = i + 1;
    }
    assert(a@ == truncate_mac(b@));
    a
}

/// An eight-byte handshake nonce.
#[derive(Clone, Copy, Debug)]
pub struct Challenge {
    pub bytes: [u8; 8],
}

impl Challenge {
    /// A challenge with the given bytes.
    pub fn new(bytes: [u8; 8]) -> (r: Challenge)
        ensures
            r.bytes == bytes,
    {
        Challenge { bytes }
    }

    /// A fresh challenge from the operating system's secure random source.
    pub fn random() -> (r: Result<Challenge, KeyError>)
        ensures
            r matches Err(e) ==> e == KeyError::RandomSourceFailed,
    {
        match os_random_8() {
            Some(bytes) => Ok(Challenge { bytes }),
            None => Err(KeyError::RandomSourceFailed),
        }
    }
}

/// An eight-byte authenticator proving knowledge of the keys.
#[derive(Clone, Copy, Debug)]
pub struct Cryptogram {
    pub bytes: [u8; 8],
}

impl Cryptogram {
    /// A cryptogram with the given bytes.
    pub fn new(bytes: [u8; 8]) -> (r: Cryptogram)
        ensures
            r.bytes == bytes,
    {
        Cryptogram { bytes }
    }

    /// Equality in time independent of the bytes compared.
    pub fn ct_eq(&self, other: &Cryptogram) -> (r: bool)
        ensures
            r == (self.bytes@ == other.bytes@),
    {
        constant_time_eq(&self.bytes, &other.bytes)
    }
}

/// Which side a cryptogram authenticates.
#[derive(Clone, Copy, Debug, PartialEq, Eq, Structural)]
pub enum Role {
    /// The host, authenticating to the device.
    Host,
    /// The device, authenticating to the host.
    Card,
}

/// The derivation input block, as bytes.
pub(crate) fn kdf_input_bytes(label: u8, out_bits: u16, context: &[u8]) -> (r: Vec<u8>)
    ensures
        r@ == kdf_input(label, out_bits, context@),
{
    let mut v: Vec<u8> = Vec::new();
    let mut i: usize = 0;
    while i < 11
        invariant
            i <= 11,
            v@ == Seq::new(i as nat, |j: int| 0u8),
        decreases 11 - i,
    {
        v.push(0u8);
        i = i + 1;
    }
    v.push(label);
    v.push(0u8);
    push_be16(&mut v, out_bits);
    v.push(1u8);
    extend_bytes(&mut v, context);
    assert(v@ == kdf_input(label, out_bits, context@));
    v
}

/// Derive a 128-bit key from `key` for the purpose named by `label`.
pub fn derive_key_bytes(key: &[u8; 16], label: u8, context: &[u8]) -> (r: [u8; 16])
    ensures
        r@ == derive_key(key@, label, context@),
{
    let input = kdf_input_bytes(label, 128, context);
    cmac_aes128(key, input.as_slice())
}

/// The context of the derivations: host challenge, then card challenge.
pub fn context_bytes(host: &Challenge, card: &Challenge) -> (r: Vec<u8>)
    ensures
        r@ == handshake_context(host.bytes@, card.bytes@),
{
    let mut v: Vec<u8> = Vec::new();
    extend_bytes(&mut v, &host.bytes);
    extend_bytes(&mut v, &card.bytes);
    v
}

/// The cryptogram of the given role, under the session MAC key `key`, bound
/// to both challenges.
pub fn compute_cryptogram(key: &[u8; 16], role: Role, host: &Challenge, card: &Challenge) -> (r:
    Cryptogram)
    ensures
        r.bytes@ == derive_cryptogram(
            key@,
            role_label(role),
            handshake_context(host.bytes@, card.bytes@),
        ),
{
    let label = match role {
        Role::Host => HOST_CRYPTOGRAM_LABEL,
        Role::Card => CARD_CRYPTOGRAM_LABEL,
    };
    let ctx = context_bytes(host, card);
    let input = kdf_input_bytes(label, 64, ctx.as_slice());
    let tag = cmac_aes128(key, input.as_slice());
    Cryptogram { bytes: first8(&tag) }
}

/// The session keys for the given static keys and challenges: encryption,
/// command MAC and response MAC, in that order.
pub fn derive_session_keys(static_keys: &StaticKeys, host: &Challenge, card: &Challenge) -> (r: (
    [u8; 16],
    [u8; 16],
    [u8; 16],
))
    ensures
        (r.0@, r.1@, r.2@) == session_keys(
            static_keys.enc(),
            static_keys.mac(),
            host.bytes@,
            card.bytes@,
        ),
{
    let ctx = context_bytes(host, card);
    let enc = derive_key_bytes(&static_keys.enc_key, S_ENC_LABEL, ctx.as_slice());
    let mac = derive_key_bytes(&static_keys.mac_key, S_MAC_LABEL, ctx.as_slice());
    let rmac = derive_key_bytes(&static_keys.mac_key, S_RMAC_LABEL, ctx.as_slice());
    (enc, mac, rmac)
}

} // verus!

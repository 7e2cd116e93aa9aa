//! Application commands: their payload encodings and the session methods
//! that send them through the secure channel.

use crate::crypto::{sha256, sha256_of};
use crate::message::{be16, extend_bytes, push_be16, copy_bytes, CommandType};
use crate::session::{answers, command_effect, outcome_of, Connector, Session, SessionError};
use vstd::prelude::*;

verus! {

/// ECDSA signature, ASN.1 DER encoded.
pub struct ECDSASignature(pub Vec<u8>);

impl ECDSASignature {
    /// The bytes of the signature.
    pub fn into_vec(self) -> (r: Vec<u8>)
        ensures
            r@ == self.0@,
    {
        self.0
    }

    /// Length of the signature in bytes.
    pub fn len(&self) -> (r: usize)
        ensures
            r == self.0@.len(),
    {
        self.0.len()
    }

    /// The bytes of the signature.
    pub fn as_slice(&self) -> (r: &[u8])
        ensures
            r@ == self.0@,
    {
        self.0.as_slice()
    }
}

/// Eight-byte big-endian encoding of `n`.
pub open spec fn be64(n: nat) -> Seq<u8> {
    Seq::new(8, |i: int| ((n / pow256((7 - i) as nat)) % 256) as u8)
}

pub open spec fn pow256(k: nat) -> nat
    decreases k,
{
    if k == 0 {
        1
    } else {
        256 * pow256((k - 1) as nat)
    }
}

fn push_be64(out: &mut Vec<u8>, n: u64)
    ensures
        final(out)@ == old(out)@ + be64(n as nat),
{
    let ghost start = out@;
    let mut i: usize = 0;
    let mut div: u64 = 72057594037927936;
    proof {
        reveal_with_fuel(pow256, 8);
    }
    assert(pow256(7) == 72057594037927936);
    assert(Seq::new(0, |j: int| ((n as nat / pow256((7 - j) as nat)) % 256) as u8)
        =~= Seq::<u8>::empty());
    while i < 8
        invariant
            i <= 8,
            div as nat == pow256((7 - i) as nat) || i == 8,
            out@ == start
                + Seq::new(i as nat, |j: int| ((n as nat / pow256((7 - j) as nat)) % 256) as u8),
        decreases 8 - i,
    {
        proof {
            reveal_with_fuel(pow256, 8);
        }
        out.push(((n / div) % 256) as u8);
        assert(out@ =~= start + Seq::new((i
            + 1) as nat, |j: int| ((n as nat / pow256((7 - j) as nat)) % 256) as u8));
        if i < 7 {
            div = div / 256;
        }
        i = i + 1;
    }
}

/// Request: blink the device's LEDs.
pub struct BlinkCommand {
    /// Number of seconds to blink for.
    pub num_seconds: u8,
}

impl BlinkCommand {
    /// The type of this command.
    pub fn command_type(&self) -> (r: CommandType)
        ensures
            r == CommandType::Blink,
    {
        CommandType::Blink
    }

    /// The payload: the fields in order, integers big-endian.
    pub open spec fn spec_payload(&self) -> Seq<u8> {
        seq![self.num_seconds]
    }

    /// The payload of this command.
    pub fn payload(&self) -> (r: Vec<u8>)
        ensures
            r@ == self.spec_payload(),
    {
        let mut v: Vec<u8> = Vec::new();
        v.push(self.num_seconds);
        assert(v@ =~= self.spec_payload());
        v
    }
}

/// Request: delete an object.
pub struct DeleteObjectCommand {
    /// Object to delete.
    pub object_id: u16,
    /// Type of the object.
    pub object_type: u8,
}

impl DeleteObjectCommand {
    /// The type of this command.
    pub fn command_type(&self) -> (r: CommandType)
        ensures
            r == CommandType::DeleteObject,
    {
        CommandType::DeleteObject
    }

    /// The payload: the fields in order, integers big-endian.
    pub open spec fn spec_payload(&self) -> Seq<u8> {
        be16(self.object_id as nat) + seq![self.object_type]
    }

    /// The payload of this command.
    pub fn payload(&self) -> (r: Vec<u8>)
        ensures
            r@ == self.spec_payload(),
    {
        let mut v: Vec<u8> = Vec::new();
        push_be16(&mut v, self.object_id);
        v.push(self.object_type);
        assert(v@ =~= self.spec_payload());
        v
    }
}

/// Request: have the device echo a message.
pub struct EchoCommand {
    /// Message to echo.
    pub message: Vec<u8>,
}

impl EchoCommand {
    /// The type of this command.
    pub fn command_type(&self) -> (r: CommandType)
        ensures
            r == CommandType::Echo,
    {
        CommandType::Echo
    }

    /// The payload: the fields in order, integers big-endian.
    pub open spec fn spec_payload(&self) -> Seq<u8> {
        self.message@
    }

    /// The payload of this command.
    pub fn payload(&self) -> (r: Vec<u8>)
        ensures
            r@ == self.spec_payload(),
    {
        let mut v: Vec<u8> = Vec::new();
        extend_bytes(&mut v, self.message.as_slice());
        assert(v@ =~= self.spec_payload());
        v
    }
}

/// Request: generate an asymmetric key.
pub struct GenAsymmetricKeyCommand {
    /// Id of the new key.
    pub key_id: u16,
    /// Label of the new key.
    pub label: [u8; 40],
    /// Domains it belongs to.
    pub domains: u16,
    /// What it may be used for.
    pub capabilities: u64,
    /// Its algorithm.
    pub algorithm: u8,
}

impl GenAsymmetricKeyCommand {
    /// The type of this command.
    pub fn command_type(&self) -> (r: CommandType)
        ensures
            r == CommandType::GenAsymmetricKey,
    {
        CommandType::GenAsymmetricKey
    }

    /// The payload: the fields in order, integers big-endian.
    pub open spec fn spec_payload(&self) -> Seq<u8> {
        be16(self.key_id as nat) + self.label@ + be16(self.domains as nat)
            + be64(self.capabilities as nat) + seq![self.algorithm]
    }

    /// The payload of this command.
    pub fn payload(&self) -> (r: Vec<u8>)
        ensures
            r@ == self.spec_payload(),
    {
        let mut v: Vec<u8> = Vec::new();
        push_be16(&mut v, self.key_id);
        extend_bytes(&mut v, &self.label);
        push_be16(&mut v, self.domains);
        push_be64(&mut v, self.capabilities);
        v.push(self.algorithm);
        assert(v@ =~= self.spec_payload());
        v
    }
}

/// Request: get a public key.
pub struct GetPubKeyCommand {
    /// Key whose public key to return.
    pub key_id: u16,
}

impl GetPubKeyCommand {
    /// The type of this command.
    pub fn command_type(&self) -> (r: CommandType)
        ensures
            r == CommandType::GetPubKey,
    {
        CommandType::GetPubKey
    }

    /// The payload: the fields in order, integers big-endian.
    pub open spec fn spec_payload(&self) -> Seq<u8> {
        be16(self.key_id as nat)
    }

    /// The payload of this command.
    pub fn payload(&self) -> (r: Vec<u8>)
        ensures
            r@ == self.spec_payload(),
    {
        let mut v: Vec<u8> = Vec::new();
        push_be16(&mut v, self.key_id);
        assert(v@ =~= self.spec_payload());
        v
    }
}

/// Request: get information about an object.
pub struct GetObjectInfoCommand {
    /// Object to describe.
    pub object_id: u16,
    /// Type of the object.
    pub object_type: u8,
}

impl GetObjectInfoCommand {
    /// The type of this command.
    pub fn command_type(&self) -> (r: CommandType)
        ensures
            r == CommandType::GetObjectInfo,
    {
        CommandType::GetObjectInfo
    }

    /// The payload: the fields in order, integers big-endian.
    pub open spec fn spec_payload(&self) -> Seq<u8> {
        be16(self.object_id as nat) + seq![self.object_type]
    }

    /// The payload of this command.
    pub fn payload(&self) -> (r: Vec<u8>)
        ensures
            r@ == self.spec_payload(),
    {
        let mut v: Vec<u8> = Vec::new();
        push_be16(&mut v, self.object_id);
        v.push(self.object_type);
        assert(v@ =~= self.spec_payload());
        v
    }
}

/// Request: list the objects visible from the session.
pub struct ListObjectsCommand {
}

impl ListObjectsCommand {
    /// The type of this command.
    pub fn command_type(&self) -> (r: CommandType)
        ensures
            r == CommandType::ListObjects,
    {
        CommandType::ListObjects
    }

    /// The payload: the fields in order, integers big-endian.
    pub open spec fn spec_payload(&self) -> Seq<u8> {
        Seq::<u8>::empty()
    }

    /// The payload of this command.
    pub fn payload(&self) -> (r: Vec<u8>)
        ensures
            r@ == self.spec_payload(),
    {
        let mut v: Vec<u8> = Vec::new();
        assert(v@ =~= self.spec_payload());
        v
    }
}

/// Request: sign data with Ed25519.
pub struct SignDataEdDSACommand {
    /// Key to sign with.
    pub key_id: u16,
    /// Data to sign.
    pub data: Vec<u8>,
}

impl SignDataEdDSACommand {
    /// The type of this command.
    pub fn command_type(&self) -> (r: CommandType)
        ensures
            r == CommandType::SignDataEdDSA,
    {
        CommandType::SignDataEdDSA
    }

    /// The payload: the fields in order, integers big-endian.
    pub open spec fn spec_payload(&self) -> Seq<u8> {
        be16(self.key_id as nat) + self.data@
    }

    /// The payload of this command.
    pub fn payload(&self) -> (r: Vec<u8>)
        ensures
            r@ == self.spec_payload(),
    {
        let mut v: Vec<u8> = Vec::new();
        push_be16(&mut v, self.key_id);
        extend_bytes(&mut v, self.data.as_slice());
        assert(v@ =~= self.spec_payload());
        v
    }
}

/// Request: import an asymmetric key.
pub struct PutAsymmetricCommand {
    /// Id of the key.
    pub key_id: u16,
    /// Label of the key.
    pub label: [u8; 40],
    /// Domains it belongs to.
    pub domains: u16,
    /// What it may be used for.
    pub capabilities: u64,
    /// Its algorithm.
    pub algorithm: u8,
    /// The key material.
    pub data: Vec<u8>,
}

impl PutAsymmetricCommand {
    /// The type of this command.
    pub fn command_type(&self) -> (r: CommandType)
        ensures
            r == CommandType::PutAsymmetricKey,
    {
        CommandType::PutAsymmetricKey
    }

    /// The payload: the fields in order, integers big-endian.
    pub open spec fn spec_payload(&self) -> Seq<u8> {
        be16(self.key_id as nat) + self.label@ + be16(self.domains as nat)
            + be64(self.capabilities as nat) + seq![self.algorithm] + self.data@
    }

    /// The payload of this command.
    pub fn payload(&self) -> (r: Vec<u8>)
        ensures
            r@ == self.spec_payload(),
    {
        let mut v: Vec<u8> = Vec::new();
        push_be16(&mut v, self.key_id);
        extend_bytes(&mut v, &self.label);
        push_be16(&mut v, self.domains);
        push_be64(&mut v, self.capabilities);
        v.push(self.algorithm);
        extend_bytes(&mut v, self.data.as_slice());
        assert(v@ =~= self.spec_payload());
        v
    }
}

/// Request: encrypt data with a wrap key.
pub struct WrapDataCommand {
    /// Wrap key to use.
    pub key_id: u16,
    /// Data to wrap.
    pub data: Vec<u8>,
}

impl WrapDataCommand {
    /// The type of this command.
    pub fn command_type(&self) -> (r: CommandType)
        ensures
            r == CommandType::WrapData,
    {
        CommandType::WrapData
    }

    /// The payload: the fields in order, integers big-endian.
    pub open spec fn spec_payload(&self) -> Seq<u8> {
        be16(self.key_id as nat) + self.data@
    }

    /// The payload of this command.
    pub fn payload(&self) -> (r: Vec<u8>)
        ensures
            r@ == self.spec_payload(),
    {
        let mut v: Vec<u8> = Vec::new();
        push_be16(&mut v, self.key_id);
        extend_bytes(&mut v, self.data.as_slice());
        assert(v@ =~= self.spec_payload());
        v
    }
}

/// Request: import a wrap key.
pub struct PutWrapKeyCommand {
    /// Id of the key.
    pub key_id: u16,
    /// Label of the key.
    pub label: [u8; 40],
    /// Domains it belongs to.
    pub domains: u16,
    /// What it may be used for.
    pub capabilities: u64,
    /// Its algorithm.
    pub algorithm: u8,
    /// Capabilities it may delegate.
    pub delegated: u64,
    /// The key material.
    pub wrapkey: Vec<u8>,
}

impl PutWrapKeyCommand {
    /// The type of this command.
    pub fn command_type(&self) -> (r: CommandType)
        ensures
            r == CommandType::PutWrapKey,
    {
        CommandType::PutWrapKey
    }

    /// The payload: the fields in order, integers big-endian.
    pub open spec fn spec_payload(&self) -> Seq<u8> {
        be16(self.key_id as nat) + self.label@ + be16(self.domains as nat)
            + be64(self.capabilities as nat) + seq![self.algorithm] + be64(self.delegated as nat)
            + self.wrapkey@
    }

    /// The payload of this command.
    pub fn payload(&self) -> (r: Vec<u8>)
        ensures
            r@ == self.spec_payload(),
    {
        let mut v: Vec<u8> = Vec::new();
        push_be16(&mut v, self.key_id);
        extend_bytes(&mut v, &self.label);
        push_be16(&mut v, self.domains);
        push_be64(&mut v, self.capabilities);
        v.push(self.algorithm);
        push_be64(&mut v, self.delegated);
        extend_bytes(&mut v, self.wrapkey.as_slice());
        assert(v@ =~= self.spec_payload());
        v
    }
}

/// Request: decrypt data with a wrap key.
pub struct UnwrapDataCommand {
    /// Wrap key to use.
    pub key_id: u16,
    /// Data to unwrap.
    pub data: Vec<u8>,
}

impl UnwrapDataCommand {
    /// The type of this command.
    pub fn command_type(&self) -> (r: CommandType)
        ensures
            r == CommandType::UnwrapData,
    {
        CommandType::UnwrapData
    }

    /// The payload: the fields in order, integers big-endian.
    pub open spec fn spec_payload(&self) -> Seq<u8> {
        be16(self.key_id as nat) + self.data@
    }

    /// The payload of this command.
    pub fn payload(&self) -> (r: Vec<u8>)
        ensures
            r@ == self.spec_payload(),
    {
        let mut v: Vec<u8> = Vec::new();
        push_be16(&mut v, self.key_id);
        extend_bytes(&mut v, self.data.as_slice());
        assert(v@ =~= self.spec_payload());
        v
    }
}

/// Request: sign a digest with ECDSA.
pub struct SignDataECDSACommand {
    /// Key to sign with.
    pub key_id: u16,
    /// Digest to sign.
    pub digest: Vec<u8>,
}

impl SignDataECDSACommand {
    /// The type of this command.
    pub fn command_type(&self) -> (r: CommandType)
        ensures
            r == CommandType::SignDataECDSA,
    {
        CommandType::SignDataECDSA
    }

    /// The payload: the fields in order, integers big-endian.
    pub open spec fn spec_payload(&self) -> Seq<u8> {
        be16(self.key_id as nat) + self.digest@
    }

    /// The payload of this command.
    pub fn payload(&self) -> (r: Vec<u8>)
        ensures
            r@ == self.spec_payload(),
    {
        let mut v: Vec<u8> = Vec::new();
        push_be16(&mut v, self.key_id);
        extend_bytes(&mut v, self.digest.as_slice());
        assert(v@ =~= self.spec_payload());
        v
    }
}

/// Request: generate a wrap key.
pub struct GenerateWrapKeyCommand {
    /// Id of the new key.
    pub key_id: u16,
    /// Label of the new key.
    pub label: [u8; 40],
    /// Domains it belongs to.
    pub domains: u16,
    /// What it may be used for.
    pub capabilities: u64,
    /// Its algorithm.
    pub algorithm: u8,
    /// Capabilities it may delegate.
    pub delegated: u64,
}

impl GenerateWrapKeyCommand {
    /// The type of this command.
    pub fn command_type(&self) -> (r: CommandType)
        ensures
            r == CommandType::GenerateWrapKey,
    {
        CommandType::GenerateWrapKey
    }

    /// The payload: the fields in order, integers big-endian.
    pub open spec fn spec_payload(&self) -> Seq<u8> {
        be16(self.key_id as nat) + self.label@ + be16(self.domains as nat)
            + be64(self.capabilities as nat) + seq![self.algorithm] + be64(self.delegated as nat)
    }

    /// The payload of this command.
    pub fn payload(&self) -> (r: Vec<u8>)
        ensures
            r@ == self.spec_payload(),
    {
        let mut v: Vec<u8> = Vec::new();
        push_be16(&mut v, self.key_id);
        extend_bytes(&mut v, &self.label);
        push_be16(&mut v, self.domains);
        push_be64(&mut v, self.capabilities);
        v.push(self.algorithm);
        push_be64(&mut v, self.delegated);
        assert(v@ =~= self.spec_payload());
        v
    }
}

/// Request: attest an asymmetric key.
pub struct AttestAsymmetricCommand {
    /// Key to attest.
    pub key_id: u16,
    /// Key to attest with.
    pub attest_key_id: u16,
}

impl AttestAsymmetricCommand {
    /// The type of this command.
    pub fn command_type(&self) -> (r: CommandType)
        ensures
            r == CommandType::AttestAsymmetric,
    {
        CommandType::AttestAsymmetric
    }

    /// The payload: the fields in order, integers big-endian.
    pub open spec fn spec_payload(&self) -> Seq<u8> {
        be16(self.key_id as nat) + be16(self.attest_key_id as nat)
    }

    /// The payload of this command.
    pub fn payload(&self) -> (r: Vec<u8>)
        ensures
            r@ == self.spec_payload(),
    {
        let mut v: Vec<u8> = Vec::new();
        push_be16(&mut v, self.key_id);
        push_be16(&mut v, self.attest_key_id);
        assert(v@ =~= self.spec_payload());
        v
    }
}

/// Request: export an object under a wrap key.
pub struct ExportWrappedCommand {
    /// Wrap key to use.
    pub wrapkey_id: u16,
    /// Type of the object.
    pub object_type: u8,
    /// Object to export.
    pub object_id: u16,
}

impl ExportWrappedCommand {
    /// The type of this command.
    pub fn command_type(&self) -> (r: CommandType)
        ensures
            r == CommandType::ExportWrapped,
    {
        CommandType::ExportWrapped
    }

    /// The payload: the fields in order, integers big-endian.
    pub open spec fn spec_payload(&self) -> Seq<u8> {
        be16(self.wrapkey_id as nat) + seq![self.object_type] + be16(self.object_id as nat)
    }

    /// The payload of this command.
    pub fn payload(&self) -> (r: Vec<u8>)
        ensures
            r@ == self.spec_payload(),
    {
        let mut v: Vec<u8> = Vec::new();
        push_be16(&mut v, self.wrapkey_id);
        v.push(self.object_type);
        push_be16(&mut v, self.object_id);
        assert(v@ =~= self.spec_payload());
        v
    }
}

impl<C: Connector> Session<C> {
    /// Blink the device's LEDs for the given number of seconds.
    pub fn blink(&mut self, num_seconds: u8) -> (r: Result<Vec<u8>, SessionError>)
        requires
            old(self).wf(),
        ensures
            final(self).wf(),
            command_effect(
                old(self).channel_view(),
                final(self).channel_view(),
                CommandType::Blink,
                seq![num_seconds],
                outcome_of(r),
            ),
            r matches Ok(d) ==> answers(CommandType::Blink, d@),
    {
        let command = BlinkCommand { num_seconds };
        let payload = command.payload();
        self.send_encrypted_command(command.command_type(), payload.as_slice())
    }

    /// Delete the object of the given id and type.
    pub fn delete_object(
        &mut self,
        object_id: u16,
        object_type: u8,
    ) -> (r: Result<Vec<u8>, SessionError>)
        requires
            old(self).wf(),
        ensures
            final(self).wf(),
            command_effect(
                old(self).channel_view(),
                final(self).channel_view(),
                CommandType::DeleteObject,
                be16(object_id as nat) + seq![object_type],
                outcome_of(r),
            ),
            r matches Ok(d) ==> answers(CommandType::DeleteObject, d@),
    {
        let command = DeleteObjectCommand { object_id, object_type };
        let payload = command.payload();
        self.send_encrypted_command(command.command_type(), payload.as_slice())
    }

    /// Have the device echo a message back.
    pub fn echo(&mut self, message: &[u8]) -> (r: Result<Vec<u8>, SessionError>)
        requires
            old(self).wf(),
        ensures
            final(self).wf(),
            command_effect(
                old(self).channel_view(),
                final(self).channel_view(),
                CommandType::Echo,
                message@,
                outcome_of(r),
            ),
            r matches Ok(d) ==> answers(CommandType::Echo, d@),
    {
        let command = EchoCommand { message: copy_bytes(message) };
        let payload = command.payload();
        self.send_encrypted_command(command.command_type(), payload.as_slice())
    }

    /// Generate an asymmetric key on the device.
    pub fn generate_asymmetric_key(
        &mut self,
        key_id: u16,
        label: &[u8; 40],
        domains: u16,
        capabilities: u64,
        algorithm: u8,
    ) -> (r: Result<Vec<u8>, SessionError>)
        requires
            old(self).wf(),
        ensures
            final(self).wf(),
            command_effect(
                old(self).channel_view(),
                final(self).channel_view(),
                CommandType::GenAsymmetricKey,
                be16(key_id as nat) + label@ + be16(domains as nat) + be64(capabilities as nat)
                    + seq![algorithm],
                outcome_of(r),
            ),
            r matches Ok(d) ==> answers(CommandType::GenAsymmetricKey, d@),
    {
        let command = GenAsymmetricKeyCommand {
            key_id,
            label: *label,
            domains,
            capabilities,
            algorithm,
        };
        let payload = command.payload();
        self.send_encrypted_command(command.command_type(), payload.as_slice())
    }

    /// The public key of an asymmetric key stored on the device.
    pub fn get_pubkey(&mut self, key_id: u16) -> (r: Result<Vec<u8>, SessionError>)
        requires
            old(self).wf(),
        ensures
            final(self).wf(),
            command_effect(
                old(self).channel_view(),
                final(self).channel_view(),
                CommandType::GetPubKey,
                be16(key_id as nat),
                outcome_of(r),
            ),
            r matches Ok(d) ==> answers(CommandType::GetPubKey, d@),
    {
        let command = GetPubKeyCommand { key_id };
        let payload = command.payload();
        self.send_encrypted_command(command.command_type(), payload.as_slice())
    }

    /// Information about the object of the given id and type.
    pub fn get_object_info(
        &mut self,
        object_id: u16,
        object_type: u8,
    ) -> (r: Result<Vec<u8>, SessionError>)
        requires
            old(self).wf(),
        ensures
            final(self).wf(),
            command_effect(
                old(self).channel_view(),
                final(self).channel_view(),
                CommandType::GetObjectInfo,
                be16(object_id as nat) + seq![object_type],
                outcome_of(r),
            ),
            r matches Ok(d) ==> answers(CommandType::GetObjectInfo, d@),
    {
        let command = GetObjectInfoCommand { object_id, object_type };
        let payload = command.payload();
        self.send_encrypted_command(command.command_type(), payload.as_slice())
    }

    /// The objects visible from this session.
    pub fn list_objects(&mut self) -> (r: Result<Vec<u8>, SessionError>)
        requires
            old(self).wf(),
        ensures
            final(self).wf(),
            command_effect(
                old(self).channel_view(),
                final(self).channel_view(),
                CommandType::ListObjects,
                Seq::<u8>::empty(),
                outcome_of(r),
            ),
            r matches Ok(d) ==> answers(CommandType::ListObjects, d@),
    {
        let command = ListObjectsCommand {  };
        let payload = command.payload();
        self.send_encrypted_command(command.command_type(), payload.as_slice())
    }

    /// An Ed25519 signature of `data` with the given key.
    pub fn sign_data_eddsa(
        &mut self,
        key_id: u16,
        data: &[u8],
    ) -> (r: Result<Vec<u8>, SessionError>)
        requires
            old(self).wf(),
        ensures
            final(self).wf(),
            command_effect(
                old(self).channel_view(),
                final(self).channel_view(),
                CommandType::SignDataEdDSA,
                be16(key_id as nat) + data@,
                outcome_of(r),
            ),
            r matches Ok(d) ==> answers(CommandType::SignDataEdDSA, d@),
    {
        let command = SignDataEdDSACommand { key_id, data: copy_bytes(data) };
        let payload = command.payload();
        self.send_encrypted_command(command.command_type(), payload.as_slice())
    }

    /// Import an asymmetric key.
    pub fn put_asymmetric(
        &mut self,
        key_id: u16,
        label: &[u8; 40],
        domains: u16,
        capabilities: u64,
        algorithm: u8,
        data: &[u8],
    ) -> (r: Result<Vec<u8>, SessionError>)
        requires
            old(self).wf(),
        ensures
            final(self).wf(),
            command_effect(
                old(self).channel_view(),
                final(self).channel_view(),
                CommandType::PutAsymmetricKey,
                be16(key_id as nat) + label@ + be16(domains as nat) + be64(capabilities as nat)
                    + seq![algorithm] + data@,
                outcome_of(r),
            ),
            r matches Ok(d) ==> answers(CommandType::PutAsymmetricKey, d@),
    {
        let command = PutAsymmetricCommand {
            key_id,
            label: *label,
            domains,
            capabilities,
            algorithm,
            data: copy_bytes(data),
        };
        let payload = command.payload();
        self.send_encrypted_command(command.command_type(), payload.as_slice())
    }

    /// Encrypt (wrap) data with a wrap key.
    pub fn wrap_data(&mut self, key_id: u16, data: &[u8]) -> (r: Result<Vec<u8>, SessionError>)
        requires
            old(self).wf(),
        ensures
            final(self).wf(),
            command_effect(
                old(self).channel_view(),
                final(self).channel_view(),
                CommandType::WrapData,
                be16(key_id as nat) + data@,
                outcome_of(r),
            ),
            r matches Ok(d) ==> answers(CommandType::WrapData, d@),
    {
        let command = WrapDataCommand { key_id, data: copy_bytes(data) };
        let payload = command.payload();
        self.send_encrypted_command(command.command_type(), payload.as_slice())
    }

    /// Import a wrap key, with the capabilities it may delegate.
    pub fn put_wrap_key(
        &mut self,
        key_id: u16,
        label: &[u8; 40],
        domains: u16,
        capabilities: u64,
        algorithm: u8,
        delegated: u64,
        wrapkey: &[u8],
    ) -> (r: Result<Vec<u8>, SessionError>)
        requires
            old(self).wf(),
        ensures
            final(self).wf(),
            command_effect(
                old(self).channel_view(),
                final(self).channel_view(),
                CommandType::PutWrapKey,
                be16(key_id as nat) + label@ + be16(domains as nat) + be64(capabilities as nat)
                    + seq![algorithm] + be64(delegated as nat) + wrapkey@,
                outcome_of(r),
            ),
            r matches Ok(d) ==> answers(CommandType::PutWrapKey, d@),
    {
        let command = PutWrapKeyCommand {
            key_id,
            label: *label,
            domains,
            capabilities,
            algorithm,
            delegated,
            wrapkey: copy_bytes(wrapkey),
        };
        let payload = command.payload();
        self.send_encrypted_command(command.command_type(), payload.as_slice())
    }

    /// Decrypt (unwrap) data with a wrap key.
    pub fn unwrap_data(&mut self, key_id: u16, data: &[u8]) -> (r: Result<Vec<u8>, SessionError>)
        requires
            old(self).wf(),
        ensures
            final(self).wf(),
            command_effect(
                old(self).channel_view(),
                final(self).channel_view(),
                CommandType::UnwrapData,
                be16(key_id as nat) + data@,
                outcome_of(r),
            ),
            r matches Ok(d) ==> answers(CommandType::UnwrapData, d@),
    {
        let command = UnwrapDataCommand { key_id, data: copy_bytes(data) };
        let payload = command.payload();
        self.send_encrypted_command(command.command_type(), payload.as_slice())
    }

    /// An ECDSA signature of the digest `data` with the given key.
    pub fn sign_data_ecdsa(
        &mut self,
        key_id: u16,
        digest: &[u8],
    ) -> (r: Result<ECDSASignature, SessionError>)
        requires
            old(self).wf(),
        ensures
            final(self).wf(),
            command_effect(
                old(self).channel_view(),
                final(self).channel_view(),
                CommandType::SignDataECDSA,
                be16(key_id as nat) + digest@,
                outcome_of(r),
            ),
            r matches Ok(sig) ==> answers(CommandType::SignDataECDSA, sig.0@),
    {
        let command = SignDataECDSACommand { key_id, digest: copy_bytes(digest) };
        let payload = command.payload();
        match self.send_encrypted_command(command.command_type(), payload.as_slice()) {
            Ok(sig) => Ok(ECDSASignature(sig)),
            Err(e) => Err(e),
        }
    }

    /// Generate a wrap key on the device, with the capabilities it may delegate.
    pub fn generate_wrap_key(
        &mut self,
        key_id: u16,
        label: &[u8; 40],
        domains: u16,
        capabilities: u64,
        algorithm: u8,
        delegated: u64,
    ) -> (r: Result<Vec<u8>, SessionError>)
        requires
            old(self).wf(),
        ensures
            final(self).wf(),
            command_effect(
                old(self).channel_view(),
                final(self).channel_view(),
                CommandType::GenerateWrapKey,
                be16(key_id as nat) + label@ + be16(domains as nat) + be64(capabilities as nat)
                    + seq![algorithm] + be64(delegated as nat),
                outcome_of(r),
            ),
            r matches Ok(d) ==> answers(CommandType::GenerateWrapKey, d@),
    {
        let command = GenerateWrapKeyCommand {
            key_id,
            label: *label,
            domains,
            capabilities,
            algorithm,
            delegated,
        };
        let payload = command.payload();
        self.send_encrypted_command(command.command_type(), payload.as_slice())
    }

    /// Attest an asymmetric key with another.
    pub fn attest_asymmetric(
        &mut self,
        key_id: u16,
        attest_key_id: u16,
    ) -> (r: Result<Vec<u8>, SessionError>)
        requires
            old(self).wf(),
        ensures
            final(self).wf(),
            command_effect(
                old(self).channel_view(),
                final(self).channel_view(),
                CommandType::AttestAsymmetric,
                be16(key_id as nat) + be16(attest_key_id as nat),
                outcome_of(r),
            ),
            r matches Ok(d) ==> answers(CommandType::AttestAsymmetric, d@),
    {
        let command = AttestAsymmetricCommand { key_id, attest_key_id };
        let payload = command.payload();
        self.send_encrypted_command(command.command_type(), payload.as_slice())
    }

    /// Export an object in wrapped (encrypted) form.
    pub fn export_wrapped(
        &mut self,
        wrapkey_id: u16,
        object_type: u8,
        object_id: u16,
    ) -> (r: Result<Vec<u8>, SessionError>)
        requires
            old(self).wf(),
        ensures
            final(self).wf(),
            command_effect(
                old(self).channel_view(),
                final(self).channel_view(),
                CommandType::ExportWrapped,
                be16(wrapkey_id as nat) + seq![object_type] + be16(object_id as nat),
                outcome_of(r),
            ),
            r matches Ok(d) ==> answers(CommandType::ExportWrapped, d@),
    {
        let command = ExportWrappedCommand { wrapkey_id, object_type, object_id };
        let payload = command.payload();
        self.send_encrypted_command(command.command_type(), payload.as_slice())
    }
}

/// An ECDSA signature of the SHA-256 digest of `data` with the given key.
pub fn sign_ecdsa_sha2<C: Connector>(
    session: &mut Session<C>,
    key_id: u16,
    data: &[u8],
) -> (r: Result<
    ECDSASignature,
    SessionError,
>)
    requires
        old(session).wf(),
    ensures
        final(session).wf(),
        command_effect(
            old(session).channel_view(),
            final(session).channel_view(),
            CommandType::SignDataECDSA,
            be16(key_id as nat) + sha256_of(data@),
            outcome_of(r),
        ),
        r matches Ok(sig) ==> answers(CommandType::SignDataECDSA, sig.0@),
{
    let digest = sha256(data);
    session.sign_data_ecdsa(key_id, &digest)
}

} // verus!

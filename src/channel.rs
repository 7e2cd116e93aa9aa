//! The secure channel: the session keys, the MAC chaining value and the
//! message counter, with the handshake transitions and the encrypt / decrypt
//! pipeline.

use crate::crypto::{
    aes128_encrypt_block, aes_block_of, cbc_decrypt, cbc_encrypt, cbc_encrypt_of, cmac_aes128,
    cmac_of, constant_time_eq, padded_len, wipe,
};
use crate::keys::{
    compute_cryptogram, derive_cryptogram, derive_session_keys, first8, handshake_context,
    session_keys, truncate_mac, Challenge, Cryptogram, Role, StaticKeys, CARD_CRYPTOGRAM_LABEL,
    HOST_CRYPTOGRAM_LABEL,
};
use crate::message::{
    be16, command_tag, extend_bytes, frame, push_be16, response_tag, CommandMessage, CommandType,
    ResponseCode, ResponseMessage, ResponseView, MAC_SIZE,
};
use vstd::prelude::*;

verus! {

/// Largest plaintext payload of one encrypted command.
pub const MAX_COMMAND_PAYLOAD: usize = 2028;

/// Last value the message counter can take; a channel that reaches it
/// can send no further command.
pub const MAX_COUNTER: u32 = 0xffff_ffff;

/// Errors of the secure channel.
#[derive(Clone, Copy, Debug, PartialEq, Eq, Structural)]
pub enum ChannelError {
    /// The device's cryptogram does not match, or the device rejected ours.
    AuthenticationFailed,
    /// The handshake has not completed.
    NotAuthenticated,
    /// The channel is closed and must not be used again.
    SessionClosed,
    /// The payload is larger than one encrypted command can carry.
    PayloadTooLarge,
    /// The message counter is exhausted.
    CounterExhausted,
    /// A response failed its MAC check or could not be decrypted.
    IntegrityError,
    /// A response is not the kind of frame the channel expects.
    ProtocolError,
}

/// The stages of a channel's life.
#[derive(Clone, Copy, Debug, PartialEq, Eq, Structural)]
pub enum ChannelState {
    /// Keys derived and the device's cryptogram verified; awaiting the
    /// device's acknowledgement of ours.
    Authenticating,
    /// Ready to carry encrypted commands.
    Open,
    /// Terminal: a new handshake is needed.
    Closed,
}

/// What a channel holds.
pub struct ChannelView {
    pub id: u8,
    pub enc_key: Seq<u8>,
    pub mac_key: Seq<u8>,
    pub rmac_key: Seq<u8>,
    pub host_challenge: Seq<u8>,
    pub card_challenge: Seq<u8>,
    pub chaining: Seq<u8>,
    pub counter: u32,
    pub state: ChannelState,
    /// A command was sent and its response is still to be taken.
    pub pending: bool,
}

/// Four-byte big-endian encoding of `n`.
pub open spec fn be32(n: nat) -> Seq<u8> {
    seq![
        (n / 16777216) as u8,
        ((n / 65536) % 256) as u8,
        ((n / 256) % 256) as u8,
        (n % 256) as u8,
    ]
}

/// The block encrypted to give a command's IV: the counter, right-aligned.
pub open spec fn command_iv_block(counter: u32) -> Seq<u8> {
    Seq::new(12, |i: int| 0u8) + be32(counter as nat)
}

/// The block encrypted to give a response's IV: a marker byte, then the
/// counter of the command answered, right-aligned.
pub open spec fn response_iv_block(counter: u32) -> Seq<u8> {
    seq![0x80u8] + Seq::new(11, |i: int| 0u8) + be32(counter as nat)
}

/// The all-zero seed of the MAC chain.
pub open spec fn zero_block() -> Seq<u8> {
    Seq::new(16, |i: int| 0u8)
}

/// The IV of the command sent under `counter`.
pub open spec fn command_iv(v: ChannelView) -> Seq<u8> {
    aes_block_of(v.enc_key, command_iv_block(v.counter))
}

/// The IV of the response to the last command sent.
pub open spec fn response_iv(v: ChannelView) -> Seq<u8> {
    aes_block_of(v.enc_key, response_iv_block((v.counter - 1) as u32))
}

/// The ciphertext of a command: the inner frame of its type and payload,
/// encrypted under the session encryption key.
pub open spec fn command_ciphertext(v: ChannelView, t: CommandType, payload: Seq<u8>) -> Seq<u8> {
    cbc_encrypt_of(v.enc_key, command_iv(v), frame(command_tag(t), payload))
}

/// What a command's MAC covers: the chaining value, the outer type, the
/// session id, the counter and the ciphertext.
pub open spec fn command_mac_input(chaining: Seq<u8>, id: u8, counter: u32, ct: Seq<u8>) -> Seq<
    u8,
> {
    chaining + seq![command_tag(CommandType::SessionMessage), id] + be32(counter as nat) + ct
}

/// The full 16-byte MAC of a command with ciphertext `ct`.
pub open spec fn command_full_mac(v: ChannelView, ct: Seq<u8>) -> Seq<u8> {
    cmac_of(v.mac_key, command_mac_input(v.chaining, v.id, v.counter, ct))
}

/// The payload of an encrypted command: session id, counter, ciphertext and
/// the first eight bytes of the MAC.
pub open spec fn sealed_command(v: ChannelView, t: CommandType, payload: Seq<u8>) -> Seq<u8> {
    let ct = command_ciphertext(v, t, payload);
    seq![v.id] + be32(v.counter as nat) + ct + truncate_mac(command_full_mac(v, ct))
}



/// The channel after sending a command: the MAC becomes the chaining value
/// and the counter advances.
pub open spec fn after_command(v: ChannelView, t: CommandType, payload: Seq<u8>) -> ChannelView {
    ChannelView {
        chaining: command_full_mac(v, command_ciphertext(v, t, payload)),
        counter: (v.counter + 1) as u32,
        pending: true,
        ..v
    }
}

/// What a response's MAC covers: the current chaining value, the frame's
/// status byte and length, the session id and the ciphertext.
pub open spec fn response_mac_input(chaining: Seq<u8>, id: u8, ct: Seq<u8>) -> Seq<u8> {
    chaining + seq![response_tag(ResponseCode::Success(CommandType::SessionMessage))] + be16(
        ((ct.len() % 65536 + 1 + MAC_SIZE) % 65536) as nat,
    ) + seq![id] + ct
}

/// The MAC a response carrying `ct` must have.
pub open spec fn response_mac(v: ChannelView, ct: Seq<u8>) -> Seq<u8> {
    truncate_mac(cmac_of(v.rmac_key, response_mac_input(v.chaining, v.id, ct)))
}

/// The response is an encrypted session frame for this channel.
pub open spec fn is_session_frame(v: ChannelView, r: ResponseView) -> bool {
    &&& v.pending
    &&& r.0 == ResponseCode::Success(CommandType::SessionMessage)
    &&& r.1 == Some(v.id)
    &&& r.3 is Some
}

/// A response that the host with channel `v` accepts and decrypts to `p`:
/// an encrypted frame of this session, with the right MAC, whose data is
/// the encryption of `p` under the response IV.
pub open spec fn delivers(v: ChannelView, r: ResponseView, p: Seq<u8>) -> bool {
    &&& is_session_frame(v, r)
    &&& r.3.unwrap() == response_mac(v, r.2)
    &&& cbc_encrypt_of(v.enc_key, response_iv(v), p) == r.2
}

/// Largest plaintext of one encrypted response.
pub const MAX_RESPONSE_PLAINTEXT: usize = 2031;

/// What a device with channel `v` accepts as an encrypted command: its own
/// session id, its own counter, and a MAC over its chaining value.
pub open spec fn accepts_command(v: ChannelView, t: CommandType, data: Seq<u8>) -> bool {
    let ct = data.subrange(5, data.len() - 8);
    &&& v.state is Open
    &&& v.counter < MAX_COUNTER
    &&& t == CommandType::SessionMessage
    &&& data.len() >= 13
    &&& data.subrange(0, 5) == seq![v.id] + be32(v.counter as nat)
    &&& data.subrange(data.len() - 8, data.len() as int) == truncate_mac(command_full_mac(v, ct))
}

/// The response a device with channel `v` sends for `plaintext`.
pub open spec fn sealed_response(v: ChannelView, plaintext: Seq<u8>) -> (
    ResponseCode,
    Option<u8>,
    Seq<u8>,
    Option<Seq<u8>>,
) {
    let ct = cbc_encrypt_of(v.enc_key, response_iv(v), plaintext);
    (
        ResponseCode::Success(CommandType::SessionMessage),
        Some(v.id),
        ct,
        Some(response_mac(v, ct)),
    )
}

/// The channel, closed; no response is awaited any more.
pub open spec fn closed(v: ChannelView) -> ChannelView {
    ChannelView { state: ChannelState::Closed, pending: false, ..v }
}

/// The channel, open: chaining value reset to the zero seed, counter at 1.
pub open spec fn opened(v: ChannelView) -> ChannelView {
    ChannelView { state: ChannelState::Open, chaining: zero_block(), counter: 1, pending: false, ..v }
}

/// The channel, its awaited response taken.
pub open spec fn consumed(v: ChannelView) -> ChannelView {
    ChannelView { pending: false, ..v }
}

/// The device's cryptogram for a channel.
pub open spec fn card_cryptogram_of(v: ChannelView) -> Seq<u8> {
    derive_cryptogram(
        v.mac_key,
        CARD_CRYPTOGRAM_LABEL,
        handshake_context(v.host_challenge, v.card_challenge),
    )
}

/// The host's cryptogram for a channel.
pub open spec fn host_cryptogram_of(v: ChannelView) -> Seq<u8> {
    derive_cryptogram(
        v.mac_key,
        HOST_CRYPTOGRAM_LABEL,
        handshake_context(v.host_challenge, v.card_challenge),
    )
}

/// A channel freshly keyed from static keys and both challenges.
pub open spec fn keyed(
    id: u8,
    enc: Seq<u8>,
    mac: Seq<u8>,
    host: Seq<u8>,
    card: Seq<u8>,
) -> ChannelView {
    let k = session_keys(enc, mac, host, card);
    ChannelView {
        id,
        enc_key: k.0,
        mac_key: k.1,
        rmac_key: k.2,
        host_challenge: host,
        card_challenge: card,
        chaining: zero_block(),
        counter: 0,
        state: ChannelState::Authenticating,
        pending: false,
    }
}

/// An encrypted session with the device.
pub struct Channel {
    id: u8,
    enc_key: [u8; 16],
    mac_key: [u8; 16],
    rmac_key: [u8; 16],
    host_challenge: Challenge,
    card_challenge: Challenge,
    chaining: [u8; 16],
    counter: u32,
    state: ChannelState,
    pending: bool,
}

impl Drop for Channel {
    fn drop(&mut self)
        opens_invariants none
        no_unwind
    {
        wipe(&mut self.enc_key);
        wipe(&mut self.mac_key);
        wipe(&mut self.rmac_key);
        wipe(&mut self.chaining);
    }
}

impl View for Channel {
    type V = ChannelView;

    closed spec fn view(&self) -> ChannelView {
        ChannelView {
            id: self.id,
            enc_key: self.enc_key@,
            mac_key: self.mac_key@,
            rmac_key: self.rmac_key@,
            host_challenge: self.host_challenge.bytes@,
            card_challenge: self.card_challenge.bytes@,
            chaining: self.chaining@,
            counter: self.counter,
            state: self.state,
            pending: self.pending,
        }
    }
}

pub(crate) fn push_be32(out: &mut Vec<u8>, n: u32)
    ensures
        final(out)@ == old(out)@ + be32(n as nat),
{
    out.push((n / 16777216) as u8);
    out.push(((n / 65536) % 256) as u8);
    out.push(((n / 256) % 256) as u8);
    out.push((n % 256) as u8);
}

/// A block of zeros ending in the counter, with `marker` as its first byte.
fn counter_block(marker: u8, counter: u32) -> (r: [u8; 16])
    ensures
        r@ == seq![marker] + Seq::new(11, |i: int| 0u8) + be32(counter as nat),
{
    let mut b = [0u8; 16];
    b[0] = marker;
    b[12] = (counter / 16777216) as u8;
    b[13] = ((counter / 65536) % 256) as u8;
    b[14] = ((counter / 256) % 256) as u8;
    b[15] = (counter % 256) as u8;
    assert(b@ == seq![marker] + Seq::new(11, |i: int| 0u8) + be32(counter as nat));
    b
}

impl Channel {
    /// Open stages have sent at least the handshake.
    pub open spec fn inv(&self) -> bool {
        self@.state is Open ==> self@.counter >= 1
    }

    /// Derive the session keys for session `id` from the static keys and
    /// both challenges.
    pub fn new(id: u8, static_keys: &StaticKeys, host: &Challenge, card: &Challenge) -> (r: Channel)
        ensures
            r@ == keyed(id, static_keys.enc(), static_keys.mac(), host.bytes@, card.bytes@),
            r.inv(),
    {
        let (enc_key, mac_key, rmac_key) = derive_session_keys(static_keys, host, card);
        let r = Channel {
            id,
            enc_key,
            mac_key,
            rmac_key,
            host_challenge: *host,
            card_challenge: *card,
            chaining: [0u8; 16],
            counter: 0,
            state: ChannelState::Authenticating,
            pending: false,
        };
        assert(r.chaining@ == zero_block());
        r
    }

    /// Derive the session keys and check the device's cryptogram against
    /// the expected one; fails with `AuthenticationFailed` when they differ.
    pub fn establish(
        id: u8,
        static_keys: &StaticKeys,
        host: &Challenge,
        card: &Challenge,
        card_cryptogram: &Cryptogram,
    ) -> (r: Result<Channel, ChannelError>)
        ensures
            r is Ok <==> card_cryptogram.bytes@ == card_cryptogram_of(
                keyed(id, static_keys.enc(), static_keys.mac(), host.bytes@, card.bytes@),
            ),
            r matches Ok(c) ==> c@ == keyed(
                id,
                static_keys.enc(),
                static_keys.mac(),
                host.bytes@,
                card.bytes@,
            ) && c.inv(),
            r matches Err(e) ==> e == ChannelError::AuthenticationFailed,
    {
        let channel = Channel::new(id, static_keys, host, card);
        let expected = channel.card_cryptogram();
        if expected.ct_eq(card_cryptogram) {
            Ok(channel)
        } else {
            Err(ChannelError::AuthenticationFailed)
        }
    }

    /// The session id.
    pub fn id(&self) -> (r: u8)
        ensures
            r == self@.id,
    {
        self.id
    }

    /// The message counter.
    pub fn counter(&self) -> (r: u32)
        ensures
            r == self@.counter,
    {
        self.counter
    }

    /// The stage of the channel.
    pub fn state(&self) -> (r: ChannelState)
        ensures
            r == self@.state,
    {
        self.state
    }

    /// The cryptogram the device must present.
    pub fn card_cryptogram(&self) -> (r: Cryptogram)
        ensures
            r.bytes@ == card_cryptogram_of(self@),
    {
        compute_cryptogram(&self.mac_key, Role::Card, &self.host_challenge, &self.card_challenge)
    }

    /// The cryptogram the host presents.
    pub fn host_cryptogram(&self) -> (r: Cryptogram)
        ensures
            r.bytes@ == host_cryptogram_of(self@),
    {
        compute_cryptogram(&self.mac_key, Role::Host, &self.host_challenge, &self.card_challenge)
    }

    /// The command that authenticates the host: session id, then the host's
    /// cryptogram. Only while authenticating.
    pub fn authenticate_session(&self) -> (r: Result<CommandMessage, ChannelError>)
        ensures
            self@.state is Authenticating <==> r is Ok,
            r matches Ok(m) ==> m.command_type == CommandType::AuthSession && m.data@ == seq![self@.id]
                + host_cryptogram_of(self@) && m.wf(),
            self@.state is Open ==> r == Err::<CommandMessage, ChannelError>(
                ChannelError::ProtocolError,
            ),
            self@.state is Closed ==> r == Err::<CommandMessage, ChannelError>(
                ChannelError::SessionClosed,
            ),
    {
        match self.state {
            ChannelState::Authenticating => {},
            ChannelState::Open => {
                return Err(ChannelError::ProtocolError);
            },
            ChannelState::Closed => {
                return Err(ChannelError::SessionClosed);
            },
        }
        let c = self.host_cryptogram();
        let mut data: Vec<u8> = Vec::new();
        data.push(self.id);
        extend_bytes(&mut data, &c.bytes);
        match CommandMessage::new(CommandType::AuthSession, data) {
            Ok(m) => Ok(m),
            Err(_) => Err(ChannelError::ProtocolError),
        }
    }

    /// Take the device's answer to the authentication command: a success
    /// for this session opens the channel; anything else closes it with
    /// `AuthenticationFailed`.
    pub fn finish_authenticate_session(&mut self, response: &ResponseMessage) -> (r: Result<
        (),
        ChannelError,
    >)
        ensures
            old(self)@.state is Open ==> r == Err::<(), ChannelError>(ChannelError::ProtocolError)
                && final(self)@ == old(self)@,
            old(self)@.state is Closed ==> r == Err::<(), ChannelError>(ChannelError::SessionClosed)
                && final(self)@ == old(self)@,
            old(self)@.state is Authenticating ==> {
                if response.code == ResponseCode::Success(CommandType::AuthSession)
                    && response.session_id == Some(old(self)@.id) {
                    r is Ok && final(self)@ == opened(old(self)@)
                } else {
                    r == Err::<(), ChannelError>(ChannelError::AuthenticationFailed) && final(self)@
                        == closed(old(self)@)
                }
            },
            old(self).inv() ==> final(self).inv(),
    {
        match self.state {
            ChannelState::Authenticating => {},
            ChannelState::Open => {
                return Err(ChannelError::ProtocolError);
            },
            ChannelState::Closed => {
                return Err(ChannelError::SessionClosed);
            },
        }
        let acked = match (response.code, response.session_id) {
            (ResponseCode::Success(CommandType::AuthSession), Some(id)) => id == self.id,
            _ => false,
        };
        if acked {
            self.state = ChannelState::Open;
            self.chaining = [0u8; 16];
            self.counter = 1;
            self.pending = false;
            assert(self.chaining@ == zero_block());
            Ok(())
        } else {
            self.state = ChannelState::Closed;
            self.pending = false;
            Err(ChannelError::AuthenticationFailed)
        }
    }

    /// Encrypt a command of type `t` for the device. The payload, framed with
    /// its type and length, is encrypted under an IV derived from the
    /// counter; the MAC covers the chaining value, the counter and the
    /// ciphertext, and becomes the new chaining value; the counter advances.
    pub fn encrypt_command(&mut self, t: CommandType, payload: &[u8]) -> (r: Result<
        CommandMessage,
        ChannelError,
    >)
        requires
            old(self).inv(),
        ensures
            final(self).inv(),
            old(self)@.state is Closed ==> r == Err::<CommandMessage, ChannelError>(
                ChannelError::SessionClosed,
            ) && final(self)@ == old(self)@,
            old(self)@.state is Authenticating ==> r == Err::<CommandMessage, ChannelError>(
                ChannelError::NotAuthenticated,
            ) && final(self)@ == old(self)@,
            old(self)@.state is Open && payload@.len() > MAX_COMMAND_PAYLOAD ==> r == Err::<
                CommandMessage,
                ChannelError,
            >(ChannelError::PayloadTooLarge) && final(self)@ == old(self)@,
            old(self)@.state is Open && payload@.len() <= MAX_COMMAND_PAYLOAD && old(self)@.counter
                == MAX_COUNTER ==> r == Err::<CommandMessage, ChannelError>(
                ChannelError::CounterExhausted,
            ) && final(self)@ == old(self)@,
            old(self)@.state is Open && payload@.len() <= MAX_COMMAND_PAYLOAD && old(self)@.counter
                < MAX_COUNTER ==> r is Ok,
            r matches Ok(m) ==> {
                &&& m.command_type == CommandType::SessionMessage
                &&& m.data@ == sealed_command(old(self)@, t, payload@)
                &&& m.wf()
                &&& final(self)@ == after_command(old(self)@, t, payload@)
            },
    {
        match self.state {
            ChannelState::Open => {},
            ChannelState::Authenticating => {
                return Err(ChannelError::NotAuthenticated);
            },
            ChannelState::Closed => {
                return Err(ChannelError::SessionClosed);
            },
        }
        if payload.len() > MAX_COMMAND_PAYLOAD {
            return Err(ChannelError::PayloadTooLarge);
        }
        if self.counter == MAX_COUNTER {
            return Err(ChannelError::CounterExhausted);
        }
        let ghost v = self@;
        let mut inner: Vec<u8> = Vec::new();
        inner.push(t.to_u8());
        push_be16(&mut inner, payload.len() as u16);
        extend_bytes(&mut inner, payload);
        assert(inner@ == frame(command_tag(t), payload@));
        let iv = aes128_encrypt_block(&self.enc_key, &counter_block(0, self.counter));
        assert(seq![0u8] + Seq::new(11, |i: int| 0u8) =~= Seq::new(12, |i: int| 0u8));
        assert(seq![0u8] + Seq::new(11, |i: int| 0u8)
            + be32(v.counter as nat) == command_iv_block(v.counter));
        let ct = cbc_encrypt(&self.enc_key, &iv, inner.as_slice());
        let ghost n = inner@.len();
        assert(padded_len(n) <= 2032) by (nonlinear_arith)
            requires
                n <= 2031,
        {
        }
        let mut mac_input: Vec<u8> = Vec::new();
        extend_bytes(&mut mac_input, &self.chaining);
        mac_input.push(CommandType::SessionMessage.to_u8());
        mac_input.push(self.id);
        push_be32(&mut mac_input, self.counter);
        extend_bytes(&mut mac_input, ct.as_slice());
        assert(mac_input@ == command_mac_input(v.chaining, v.id, v.counter, ct@));
        let tag = cmac_aes128(&self.mac_key, mac_input.as_slice());
        let mut data: Vec<u8> = Vec::new();
        data.push(self.id);
        push_be32(&mut data, self.counter);
        extend_bytes(&mut data, ct.as_slice());
        let short = first8(&tag);
        assert(short@ == truncate_mac(tag@));
        extend_bytes(&mut data, &short);
        assert(data@ == sealed_command(v, t, payload@));
        let m = match CommandMessage::new(CommandType::SessionMessage, data) {
            Ok(m) => m,
            Err(_) => {
                return Err(ChannelError::PayloadTooLarge);
            },
        };
        self.chaining = tag;
        self.counter = self.counter + 1;
        self.pending = true;
        assert(self@ == after_command(v, t, payload@));
        Ok(m)
    }

    /// Check and decrypt the device's response to the last command. The MAC
    /// is checked, with the response-MAC key and the current chaining value,
    /// before anything is decrypted; on any failure the channel closes and
    /// no plaintext is returned. Each command's response is taken once: a
    /// second response, or a replayed one, is refused.
    pub fn decrypt_response(
        &mut self,
        response: &ResponseMessage,
    ) -> (r: Result<Vec<u8>, ChannelError>)
        requires
            old(self).inv(),
        ensures
            final(self).inv(),
            old(self)@.state is Closed ==> r == Err::<Vec<u8>, ChannelError>(
                ChannelError::SessionClosed,
            ) && final(self)@ == old(self)@,
            old(self)@.state is Authenticating ==> r == Err::<Vec<u8>, ChannelError>(
                ChannelError::NotAuthenticated,
            ) && final(self)@ == old(self)@,
            old(self)@.state is Open && !is_session_frame(old(self)@, response@) ==> r == Err::<
                Vec<u8>,
                ChannelError,
            >(ChannelError::ProtocolError) && final(self)@ == closed(old(self)@),
            old(self)@.state is Open && is_session_frame(old(self)@, response@)
                && response.mac.unwrap()@ != response_mac(old(self)@, response.data@) ==> r == Err::<
                Vec<u8>,
                ChannelError,
            >(ChannelError::IntegrityError) && final(self)@ == closed(old(self)@),
            forall|p: Seq<u8>|
                old(self)@.state is Open && #[trigger] delivers(old(self)@, response@, p) ==> (r matches Ok(
                    pt,
                ) && pt@ == p && final(self)@ == consumed(old(self)@)),
            r is Ok ==> old(self)@.state is Open && is_session_frame(old(self)@, response@)
                && response.mac.unwrap()@ == response_mac(old(self)@, response.data@)
                && final(self)@ == consumed(old(self)@),
            r matches Err(e) ==> e == ChannelError::IntegrityError ==> final(self)@ == closed(
                old(self)@,
            ),
            final(self)@ == old(self)@ || final(self)@ == consumed(old(self)@) || final(self)@
                == closed(old(self)@),
            old(self)@.state is Open && r is Err ==> final(self)@ == closed(old(self)@),
            old(self)@.state is Open ==> (r matches Err(e) ==> e == ChannelError::ProtocolError || e
                == ChannelError::IntegrityError),
    {
        match self.state {
            ChannelState::Open => {},
            ChannelState::Authenticating => {
                return Err(ChannelError::NotAuthenticated);
            },
            ChannelState::Closed => {
                return Err(ChannelError::SessionClosed);
            },
        }
        let ghost v = self@;
        let framed = match (response.code, response.session_id) {
            (ResponseCode::Success(CommandType::SessionMessage), Some(id)) => id == self.id
                && self.pending,
            _ => false,
        };
        let mac = match (framed, &response.mac) {
            (true, Some(m)) => m,
            _ => {
                self.state = ChannelState::Closed;
                self.pending = false;
                return Err(ChannelError::ProtocolError);
            },
        };
        let mut mac_input: Vec<u8> = Vec::new();
        extend_bytes(&mut mac_input, &self.chaining);
        mac_input.push(ResponseCode::Success(CommandType::SessionMessage).to_u8());
        push_be16(&mut mac_input, ((response.data.len() % 65536 + 1 + MAC_SIZE) % 65536) as u16);
        mac_input.push(self.id);
        extend_bytes(&mut mac_input, response.data.as_slice());
        assert(mac_input@ == response_mac_input(v.chaining, v.id, response.data@));
        let tag = cmac_aes128(&self.rmac_key, mac_input.as_slice());
        let expected = first8(&tag);
        assert(expected@ == truncate_mac(tag@));
        if !constant_time_eq(&expected, mac) {
            self.state = ChannelState::Closed;
            self.pending = false;
            return Err(ChannelError::IntegrityError);
        }
        let iv = aes128_encrypt_block(&self.enc_key, &counter_block(0x80, self.counter - 1));
        assert(seq![0x80u8] + Seq::new(11, |i: int| 0u8) + be32((self.counter - 1) as nat)
            == response_iv_block((v.counter - 1) as u32));
        match cbc_decrypt(&self.enc_key, &iv, response.data.as_slice()) {
            Some(pt) => {
                self.pending = false;
                Ok(pt)
            },
            None => {
                self.state = ChannelState::Closed;
                self.pending = false;
                Err(ChannelError::IntegrityError)
            },
        }
    }

    /// Device side: answer the host's authentication command. A command of
    /// the right type carrying this session's id and the host's cryptogram
    /// opens the channel and is acknowledged; anything else closes it and
    /// is answered with `AuthenticationFailed`.
    pub fn accept_authentication(&mut self, cmd: &CommandMessage) -> (r: ResponseMessage)
        requires
            old(self)@.state is Authenticating,
        ensures
            r.wf(),
            if cmd.command_type == CommandType::AuthSession && cmd.data@ == seq![old(self)@.id]
                + host_cryptogram_of(old(self)@) {
                &&& final(self)@ == opened(old(self)@)
                &&& r.code == ResponseCode::Success(CommandType::AuthSession)
                &&& r.session_id == Some(old(self)@.id)
                &&& r.data@.len() == 0
            } else {
                &&& final(self)@ == closed(old(self)@)
                &&& r.code == ResponseCode::AuthenticationFailed
            },
            final(self).inv(),
    {
        let expected = self.host_cryptogram();
        let mut want: Vec<u8> = Vec::new();
        want.push(self.id);
        extend_bytes(&mut want, &expected.bytes);
        let is_auth = match cmd.command_type {
            CommandType::AuthSession => true,
            _ => false,
        };
        if is_auth && constant_time_eq(want.as_slice(), cmd.data.as_slice()) {
            self.state = ChannelState::Open;
            self.chaining = [0u8; 16];
            self.counter = 1;
            self.pending = false;
            assert(self.chaining@ == zero_block());
            let r = ResponseMessage {
                code: ResponseCode::Success(CommandType::AuthSession),
                session_id: Some(self.id),
                data: Vec::new(),
                mac: None,
            };
            assert(crate::message::response_body(r@) =~= seq![self.id]);
            r
        } else {
            self.state = ChannelState::Closed;
            self.pending = false;
            let r = ResponseMessage {
                code: ResponseCode::AuthenticationFailed,
                session_id: None,
                data: Vec::new(),
                mac: None,
            };
            assert(crate::message::response_body(r@) =~= Seq::<u8>::empty());
            r
        }
    }

    /// Device side: check and decrypt an encrypted command. It must carry
    /// this session's id and the counter the device expects (so a replayed
    /// command is refused) and a MAC over the device's chaining value; on
    /// success the chaining value and counter advance as on the host, and the
    /// inner frame is returned.
    pub fn open_command(&mut self, cmd: &CommandMessage) -> (r: Result<Vec<u8>, ChannelError>)
        requires
            old(self).inv(),
        ensures
            final(self).inv(),
            !(old(self)@.state is Open) ==> r is Err && final(self)@ == old(self)@,
            r is Ok ==> accepts_command(old(self)@, cmd.command_type, cmd.data@),
            !accepts_command(old(self)@, cmd.command_type, cmd.data@) ==> r is Err,
            r is Err ==> final(self)@ == old(self)@,
            forall|t: CommandType, p: Seq<u8>|
                old(self)@.state is Open && old(self)@.counter < MAX_COUNTER
                    && cmd.command_type == CommandType::SessionMessage && #[trigger] sealed_command(
                    old(self)@,
                    t,
                    p,
                ) == cmd.data@ ==> (r matches Ok(pt) && pt@ == frame(command_tag(t), p)
                    && final(self)@ == after_command(old(self)@, t, p)),
    {
        match self.state {
            ChannelState::Open => {},
            ChannelState::Authenticating => {
                return Err(ChannelError::NotAuthenticated);
            },
            ChannelState::Closed => {
                return Err(ChannelError::SessionClosed);
            },
        }
        let ghost v = self@;
        let is_session = match cmd.command_type {
            CommandType::SessionMessage => true,
            _ => false,
        };
        let n = cmd.data.len();
        proof {
            assert forall|t: CommandType, p: Seq<u8>|
                #[trigger] sealed_command(v, t, p) == cmd.data@ implies cmd.data@.len() >= 13
                && cmd.data@.subrange(0, 5) == seq![v.id] + be32(v.counter as nat)
                && cmd.data@.subrange(5, cmd.data@.len() - 8) == command_ciphertext(v, t, p)
                && cmd.data@.subrange(cmd.data@.len() - 8, cmd.data@.len() as int) == truncate_mac(
                command_full_mac(v, command_ciphertext(v, t, p)),
            ) by {
                let c2 = command_ciphertext(v, t, p);
                let s = sealed_command(v, t, p);
                assert(s.subrange(0, 5) == seq![v.id] + be32(v.counter as nat));
                assert(s.subrange(5, s.len() - 8) == c2);
                assert(s.subrange(s.len() - 8, s.len() as int) == truncate_mac(
                    command_full_mac(v, c2),
                ));
            }
        }
        if !is_session || n < 13 || self.counter == MAX_COUNTER {
            return Err(ChannelError::ProtocolError);
        }
        let mut counter_field: Vec<u8> = Vec::new();
        push_be32(&mut counter_field, self.counter);
        let head = crate::message::slice_to_vec(cmd.data.as_slice(), 0, 5);
        let mut want_head: Vec<u8> = Vec::new();
        want_head.push(self.id);
        extend_bytes(&mut want_head, counter_field.as_slice());
        if !constant_time_eq(head.as_slice(), want_head.as_slice()) {
            return Err(ChannelError::ProtocolError);
        }
        let ct = crate::message::slice_to_vec(cmd.data.as_slice(), 5, n - MAC_SIZE);
        let mac = crate::message::slice_to_vec(cmd.data.as_slice(), n - MAC_SIZE, n);
        let mut mac_input: Vec<u8> = Vec::new();
        extend_bytes(&mut mac_input, &self.chaining);
        mac_input.push(CommandType::SessionMessage.to_u8());
        mac_input.push(self.id);
        push_be32(&mut mac_input, self.counter);
        extend_bytes(&mut mac_input, ct.as_slice());
        assert(mac_input@ == command_mac_input(v.chaining, v.id, v.counter, ct@));
        let tag = cmac_aes128(&self.mac_key, mac_input.as_slice());
        let short = first8(&tag);
        assert(short@ == truncate_mac(tag@));
        if !constant_time_eq(&short, mac.as_slice()) {
            return Err(ChannelError::IntegrityError);
        }
        assert(cmd.data@ == seq![v.id] + be32(v.counter as nat) + ct@ + truncate_mac(tag@));
        let iv = aes128_encrypt_block(&self.enc_key, &counter_block(0, self.counter));
        assert(seq![0u8] + Seq::new(11, |i: int| 0u8) =~= Seq::new(12, |i: int| 0u8));
        assert(seq![0u8] + Seq::new(11, |i: int| 0u8)
            + be32(v.counter as nat) == command_iv_block(v.counter));
        let pt = match cbc_decrypt(&self.enc_key, &iv, ct.as_slice()) {
            Some(pt) => pt,
            None => {
                return Err(ChannelError::IntegrityError);
            },
        };
        self.chaining = tag;
        self.counter = self.counter + 1;
        self.pending = true;
        Ok(pt)
    }

    /// Device side: encrypt and MAC a response to the last command, chained
    /// from the current chaining value.
    pub fn seal_response(&self, plaintext: &[u8]) -> (r: Result<ResponseMessage, ChannelError>)
        requires
            self.inv(),
        ensures
            r is Ok <==> self@.state is Open && plaintext@.len() <= MAX_RESPONSE_PLAINTEXT,
            r matches Ok(m) ==> m.wf() && m@ == sealed_response(self@, plaintext@),
    {
        match self.state {
            ChannelState::Open => {},
            ChannelState::Authenticating => {
                return Err(ChannelError::NotAuthenticated);
            },
            ChannelState::Closed => {
                return Err(ChannelError::SessionClosed);
            },
        }
        if plaintext.len() > MAX_RESPONSE_PLAINTEXT {
            return Err(ChannelError::PayloadTooLarge);
        }
        let ghost v = self@;
        let iv = aes128_encrypt_block(&self.enc_key, &counter_block(0x80, self.counter - 1));
        assert(seq![0x80u8] + Seq::new(11, |i: int| 0u8) + be32((self.counter - 1) as nat)
            == response_iv_block((v.counter - 1) as u32));
        let ct = cbc_encrypt(&self.enc_key, &iv, plaintext);
        let ghost n = plaintext@.len();
        assert(padded_len(n) <= 2032) by (nonlinear_arith)
            requires
                n <= 2031,
        {
        }
        let mut mac_input: Vec<u8> = Vec::new();
        extend_bytes(&mut mac_input, &self.chaining);
        mac_input.push(ResponseCode::Success(CommandType::SessionMessage).to_u8());
        push_be16(&mut mac_input, ((ct.len() % 65536 + 1 + MAC_SIZE) % 65536) as u16);
        mac_input.push(self.id);
        extend_bytes(&mut mac_input, ct.as_slice());
        assert(mac_input@ == response_mac_input(v.chaining, v.id, ct@));
        let tag = cmac_aes128(&self.rmac_key, mac_input.as_slice());
        let short = first8(&tag);
        assert(short@ == truncate_mac(tag@));
        let m = ResponseMessage {
            code: ResponseCode::Success(CommandType::SessionMessage),
            session_id: Some(self.id),
            data: ct,
            mac: Some(short),
        };
        Ok(m)
    }

    /// Tear the channel down; it cannot be used again.
    pub fn close(&mut self)
        ensures
            final(self)@ == closed(old(self)@),
            final(self).inv(),
    {
        self.state = ChannelState::Closed;
        self.pending = false;
    }
}

/// Four-byte big-endian encodings of distinct counters differ.
pub proof fn lemma_be32_injective(a: u32, b: u32)
    requires
        be32(a as nat) == be32(b as nat),
    ensures
        a == b,
{
    let sa = be32(a as nat);
    let sb = be32(b as nat);
    assert(sa[0] == sb[0] && sa[1] == sb[1] && sa[2] == sb[2] && sa[3] == sb[3]);
    assert(((a / 16777216) as u8 == (b / 16777216) as u8 && ((a / 65536) % 256) as u8 == ((b
        / 65536) % 256) as u8 && ((a / 256) % 256) as u8 == ((b / 256) % 256) as u8 && (a
        % 256) as u8 == (b % 256) as u8) ==> a == b) by (bit_vector);
}

/// Session keying is deterministic: two parties holding the same static keys
/// and the same two challenges (the host and the device) derive the same
/// session keys and expect the same cryptograms.
pub proof fn lemma_both_sides_agree(
    host_side: &StaticKeys,
    device_side: &StaticKeys,
    id: u8,
    host: Seq<u8>,
    card: Seq<u8>,
)
    requires
        host_side.enc() == device_side.enc(),
        host_side.mac() == device_side.mac(),
    ensures
        keyed(id, host_side.enc(), host_side.mac(), host, card) == keyed(
            id,
            device_side.enc(),
            device_side.mac(),
            host,
            card,
        ),
        card_cryptogram_of(keyed(id, host_side.enc(), host_side.mac(), host, card))
            == card_cryptogram_of(keyed(id, device_side.enc(), device_side.mac(), host, card)),
        host_cryptogram_of(keyed(id, host_side.enc(), host_side.mac(), host, card))
            == host_cryptogram_of(keyed(id, device_side.enc(), device_side.mac(), host, card)),
{
}

/// Flipping any single bit of the device's cryptogram makes it differ from
/// the expected one, so `establish` fails with `AuthenticationFailed`.
pub proof fn lemma_flipped_cryptogram_rejected(v: ChannelView, i: int, bit: u8)
    requires
        0 <= i < 8,
        bit < 8,
    ensures
        card_cryptogram_of(v).update(i, card_cryptogram_of(v)[i] ^ (1u8 << bit))
            != card_cryptogram_of(v),
{
    let c = card_cryptogram_of(v);
    let x = c[i];
    assert(x ^ (1u8 << bit) != x) by (bit_vector)
        requires
            bit < 8,
    ;
    assert(c.update(i, x ^ (1u8 << bit))[i] != c[i]);
}

/// Round trip: on an open channel, the device holding the same state accepts
/// the host's encrypted command and recovers its type and payload; the
/// device's encrypted reply, made after both sides have advanced, is then
/// accepted by the host and decrypts to the reply's plaintext.
pub proof fn lemma_round_trip(v: ChannelView, t: CommandType, payload: Seq<u8>, reply: Seq<u8>)
    requires
        v.state is Open,
        v.counter < MAX_COUNTER,
    ensures
        accepts_command(v, CommandType::SessionMessage, sealed_command(v, t, payload)),
        delivers(
            after_command(v, t, payload),
            sealed_response(after_command(v, t, payload), reply),
            reply,
        ),
{
    let d = sealed_command(v, t, payload);
    let ct = command_ciphertext(v, t, payload);
    assert(d.subrange(0, 5) == seq![v.id] + be32(v.counter as nat));
    assert(d.subrange(5, d.len() - 8) == ct);
    assert(d.subrange(d.len() - 8, d.len() as int) == truncate_mac(command_full_mac(v, ct)));
}

/// A response whose MAC differs from the correct one in any byte is not
/// accepted: `decrypt_response` fails with `IntegrityError`.
pub proof fn lemma_corrupted_response_mac_rejected(v: ChannelView, reply: Seq<u8>, i: int, b: u8)
    requires
        0 <= i < 8,
        b != sealed_response(v, reply).3.unwrap()[i],
    ensures
        sealed_response(v, reply).3.unwrap().update(i, b) != response_mac(
            v,
            sealed_response(v, reply).2,
        ),
        !delivers(
            v,
            (
                sealed_response(v, reply).0,
                sealed_response(v, reply).1,
                sealed_response(v, reply).2,
                Some(sealed_response(v, reply).3.unwrap().update(i, b)),
            ),
            reply,
        ),
{
    let m = sealed_response(v, reply).3.unwrap();
    assert(m.update(i, b)[i] != m[i]);
}

/// A command whose MAC field is altered in any byte is refused by the device.
pub proof fn lemma_corrupted_command_mac_rejected(
    v: ChannelView,
    t: CommandType,
    payload: Seq<u8>,
    i: int,
    b: u8,
)
    requires
        0 <= i < 8,
        b != sealed_command(v, t, payload)[sealed_command(v, t, payload).len() - 8 + i],
    ensures
        !accepts_command(
            v,
            CommandType::SessionMessage,
            sealed_command(v, t, payload).update(sealed_command(v, t, payload).len() - 8 + i, b),
        ),
{
    let d = sealed_command(v, t, payload);
    let n = d.len();
    let e = d.update(n - 8 + i, b);
    let ct = command_ciphertext(v, t, payload);
    assert(d.subrange(5, n - 8) == ct);
    assert(e.subrange(5, n - 8) == d.subrange(5, n - 8));
    assert(d.subrange(n - 8, n as int) == truncate_mac(command_full_mac(v, ct)));
    assert(e.subrange(n - 8, n as int)[i] != d.subrange(n - 8, n as int)[i]);
}

/// Two successive commands use distinct counters and so distinct IV
/// blocks, and a command replayed after it was accepted is refused, its
/// counter being stale.
pub proof fn lemma_counter_never_reused(
    v: ChannelView,
    first_type: CommandType,
    first_payload: Seq<u8>,
    second_type: CommandType,
    second_payload: Seq<u8>,
)
    requires
        v.state is Open,
        v.counter < MAX_COUNTER,
    ensures
        after_command(v, first_type, first_payload).counter == v.counter + 1,
        command_iv_block(v.counter) != command_iv_block(
            after_command(v, first_type, first_payload).counter,
        ),
        !accepts_command(
            after_command(v, first_type, first_payload),
            CommandType::SessionMessage,
            sealed_command(v, first_type, first_payload),
        ),
        after_command(v, first_type, first_payload).counter < MAX_COUNTER ==> after_command(
            after_command(v, first_type, first_payload),
            second_type,
            second_payload,
        ).counter == v.counter + 2,
{
    let w = after_command(v, first_type, first_payload);
    if command_iv_block(v.counter) == command_iv_block(w.counter) {
        assert(command_iv_block(v.counter).subrange(12, 16) == be32(v.counter as nat));
        assert(command_iv_block(w.counter).subrange(12, 16) == be32(w.counter as nat));
        lemma_be32_injective(v.counter, w.counter);
    }
    let d = sealed_command(v, first_type, first_payload);
    assert(d.subrange(0, 5) == seq![v.id] + be32(v.counter as nat));
    if accepts_command(w, CommandType::SessionMessage, d) {
        assert(d.subrange(0, 5).subrange(1, 5) == be32(v.counter as nat));
        assert((seq![w.id] + be32(w.counter as nat)).subrange(1, 5) == be32(w.counter as nat));
        lemma_be32_injective(v.counter, w.counter);
    }
}

} // verus!

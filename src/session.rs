//! Sessions: the handshake and the dispatch of commands through the secure
//! channel, over a transport supplied by the caller.

use crate::channel::{
    after_command, closed, consumed, delivers, is_session_frame, keyed, opened, response_mac, Channel,
    ChannelError, ChannelView, MAX_COMMAND_PAYLOAD, MAX_COUNTER,
};
use crate::keys::{Challenge, Cryptogram, KeyError, StaticKeys};
use crate::message::{
    be16, extend_bytes, parse_response, push_be16, CommandMessage, CommandType, FramingError,
    ResponseCode, ResponseMessage, ResponseView,
};
use crate::crypto::random_correlation_id;
use crate::status::{chars_of, range_is, Status};
use vstd::prelude::*;

verus! {

/// What went wrong in the transport.
#[derive(Clone, Copy, Debug, PartialEq, Eq, Structural)]
pub enum ConnectorError {
    /// The address could not be resolved.
    AddressResolution,
    /// The connection failed or timed out.
    Connection,
    /// The response was not properly framed.
    Framing,
    /// The response was larger than allowed.
    Oversized,
}

/// The stage of a session at which the transport failed.
#[derive(Clone, Copy, Debug, PartialEq, Eq, Structural)]
pub enum Phase {
    /// Querying the transport's status.
    Status,
    /// Establishing the session.
    Handshake,
    /// Carrying an application command.
    Command,
}

/// Errors of a session.
#[derive(Clone, Copy, Debug, PartialEq, Eq, Structural)]
pub enum SessionError {
    /// The transport failed during the given phase.
    Transport(Phase, ConnectorError),
    /// A response frame is malformed.
    Framing(FramingError),
    /// The secure channel refused or failed.
    Channel(ChannelError),
    /// The device reported a failure, with its status code.
    ResponseError(ResponseCode),
    /// The response answers another command type than the one sent.
    ProtocolError,
    /// The device did not assign a session, or the transport is unhealthy.
    CreateFailed,
    /// The device's cryptogram did not match.
    AuthFailed,
    /// The device reported that the session is gone.
    SessionLost,
    /// Key material could not be produced.
    Key(KeyError),
}

/// A byte pipe to the device.
pub trait Connector {
    /// Send one request and wait for its response.
    fn send_command(&self, correlation_id: u128, request: Vec<u8>) -> Result<Vec<u8>, ConnectorError>;

    /// The health of the intermediary.
    fn status(&self) -> Result<Status, ConnectorError>;
}

/// Whether a device error means that the session is gone.
pub open spec fn signals_session_loss(code: ResponseCode) -> bool {
    code == ResponseCode::InvalidSession || code == ResponseCode::SessionFailed
}

/// The error, if any, for a response to a command of type `expected`: a
/// device error keeps its code (session loss aside); a success for another
/// type is a protocol error.
pub open spec fn response_check(code: ResponseCode, expected: CommandType) -> Option<SessionError> {
    match code {
        ResponseCode::Success(t) => if t == expected {
            None
        } else {
            Some(SessionError::ProtocolError)
        },
        _ => if signals_session_loss(code) {
            Some(SessionError::SessionLost)
        } else {
            Some(SessionError::ResponseError(code))
        },
    }
}

/// Type pairing: a success that answers another command type than the one
/// sent is rejected as a protocol error, whatever its MAC or status.
pub proof fn lemma_mismatched_type_rejected(expected: CommandType, got: CommandType)
    requires
        got != expected,
    ensures
        response_check(ResponseCode::Success(got), expected) == Some(SessionError::ProtocolError),
{
}

/// Check that a response is a success answering `expected`.
pub fn check_response(
    response: &ResponseMessage,
    expected: CommandType,
) -> (r: Result<(), SessionError>)
    ensures
        r matches Ok(_) ==> response_check(response.code, expected) is None,
        r matches Err(e) ==> response_check(response.code, expected) == Some(e),
{
    match response.code {
        ResponseCode::Success(t) => {
            if t == expected {
                Ok(())
            } else {
                Err(SessionError::ProtocolError)
            }
        },
        ResponseCode::InvalidSession => Err(SessionError::SessionLost),
        ResponseCode::SessionFailed => Err(SessionError::SessionLost),
        other => Err(SessionError::ResponseError(other)),
    }
}

/// Request to open a session with the given authentication key.
pub struct CreateSessionCommand {
    /// Authentication key to use.
    pub auth_key_id: u16,
    /// Randomly generated challenge from the host.
    pub host_challenge: Challenge,
}

impl CreateSessionCommand {
    /// The payload: key id (big-endian), then the host challenge.
    pub open spec fn spec_data(&self) -> Seq<u8> {
        be16(self.auth_key_id as nat) + self.host_challenge.bytes@
    }

    /// The command frame.
    pub fn to_message(&self) -> (r: Result<CommandMessage, FramingError>)
        ensures
            r is Ok,
            r matches Ok(m) ==> m.command_type == CommandType::CreateSession && m.data@
                == self.spec_data(),
    {
        let mut data: Vec<u8> = Vec::new();
        push_be16(&mut data, self.auth_key_id);
        extend_bytes(&mut data, &self.host_challenge.bytes);
        CommandMessage::new(CommandType::CreateSession, data)
    }
}

/// What the device's answer to `CreateSession` must hold for the handshake to
/// go on: a success for that command with a session id and exactly sixteen
/// bytes, the card challenge and the card cryptogram.
pub open spec fn create_session_reply(v: ResponseView) -> bool {
    &&& v.0 == ResponseCode::Success(CommandType::CreateSession)
    &&& v.1 is Some
    &&& v.2.len() == 16
}

/// Take the device's answer to `CreateSession`: check it, derive the
/// session keys and verify the card cryptogram.
pub fn open_channel(static_keys: &StaticKeys, host: &Challenge, reply: &[u8]) -> (r: Result<
    Channel,
    SessionError,
>)
    ensures
        parse_response(reply@) matches Err(e) ==> r == Err::<Channel, SessionError>(
            SessionError::Framing(e),
        ),
        parse_response(reply@) matches Ok(v) ==> response_check(v.0, CommandType::CreateSession)
            matches Some(e) ==> r == Err::<Channel, SessionError>(e),
        r matches Ok(c) ==> parse_response(reply@) matches Ok(v) && create_session_reply(v)
            && c.inv() && c@ == keyed(
            v.1.unwrap(),
            static_keys.enc(),
            static_keys.mac(),
            host.bytes@,
            v.2.subrange(0, 8),
        ) && v.2.subrange(8, 16) == crate::channel::card_cryptogram_of(c@),
        parse_response(reply@) matches Ok(v) ==> create_session_reply(v) ==> (r is Err ==> r == Err::<
            Channel,
            SessionError,
        >(SessionError::AuthFailed)),
        parse_response(reply@) matches Ok(v) ==> (v.0 == ResponseCode::Success(
            CommandType::CreateSession,
        ) && v.2.len() != 16) ==> r == Err::<Channel, SessionError>(SessionError::ProtocolError),
        parse_response(reply@) matches Ok(v) ==> create_session_reply(v) ==> (r is Ok <==> v.2.subrange(8, 16)
            == crate::channel::card_cryptogram_of(
            keyed(v.1.unwrap(), static_keys.enc(), static_keys.mac(), host.bytes@, v.2.subrange(0, 8)),
        )),
{
    let response = match ResponseMessage::parse(reply) {
        Ok(m) => m,
        Err(e) => {
            return Err(SessionError::Framing(e));
        },
    };
    match check_response(&response, CommandType::CreateSession) {
        Ok(()) => {},
        Err(e) => {
            return Err(e);
        },
    }
    let id = match response.session_id {
        Some(id) => id,
        None => {
            return Err(SessionError::CreateFailed);
        },
    };
    if response.data.len() != 16 {
        return Err(SessionError::ProtocolError);
    }
    let mut card = [0u8; 8];
    let mut cryptogram = [0u8; 8];
    let mut i: usize = 0;
    while i < 8
        invariant
            response.data@.len() == 16,
            i <= 8,
            forall|j: int| 0 <= j < i ==> card@[j] == response.data@[j] && cryptogram@[j]
                == response.data@[8 + j],
        decreases 8 - i,
    {
        card[i] = response.data[i];
        cryptogram[i] = response.data[8 + i];
        i = i + 1;
    }
    assert(card@ == response.data@.subrange(0, 8));
    assert(cryptogram@ == response.data@.subrange(8, 16));
    let card = Challenge::new(card);
    let cryptogram = Cryptogram::new(cryptogram);
    match Channel::establish(id, static_keys, host, &card, &cryptogram) {
        Ok(c) => Ok(c),
        Err(_) => Err(SessionError::AuthFailed),
    }
}

/// `d` is the data of a well-formed success frame answering `t`.
pub open spec fn answers(t: CommandType, d: Seq<u8>) -> bool {
    exists|p: Seq<u8>|
        #[trigger] parse_response(p) is Ok && parse_response(p)->Ok_0.0 == ResponseCode::Success(t)
            && parse_response(p)->Ok_0.2 == d
}

/// Take the transport's reply to an encrypted command of type `t`: parse
/// the outer frame, check it answers the encrypted command, verify its MAC
/// and decrypt it on `channel`, then parse the inner frame, which must be a
/// success answering `t`. Returns the inner frame's data.
pub fn receive_encrypted_response(
    channel: &mut Channel,
    t: CommandType,
    reply: &[u8],
) -> (r: Result<
    Vec<u8>,
    SessionError,
>)
    requires
        old(channel).inv(),
        old(channel)@.state is Open,
    ensures
        final(channel).inv(),
        final(channel)@ == old(channel)@ || final(channel)@ == consumed(old(channel)@)
            || final(channel)@ == closed(old(channel)@),
        r is Ok ==> final(channel)@ == consumed(old(channel)@),
        r matches Ok(d) ==> answers(t, d@),
        r matches Err(SessionError::Channel(e)) ==> final(channel)@ == closed(old(channel)@) && (e
            == ChannelError::ProtocolError || e == ChannelError::IntegrityError),
        r matches Err(SessionError::Framing(_)) ==> final(channel)@ == closed(old(channel)@),
        r matches Err(e) ==> !(e is Key) && !(e is Transport),
        parse_response(reply@) matches Ok(v) ==> (v.0 == ResponseCode::Success(
            CommandType::SessionMessage,
        ) && v.1 != Some(old(channel)@.id)) ==> r == Err::<Vec<u8>, SessionError>(
            SessionError::Channel(ChannelError::ProtocolError),
        ) && final(channel)@ == closed(old(channel)@),
        parse_response(reply@) matches Err(e) ==> r == Err::<Vec<u8>, SessionError>(
            SessionError::Framing(e),
        ) && final(channel)@ == closed(old(channel)@),
        parse_response(reply@) matches Ok(v) ==> response_check(v.0, CommandType::SessionMessage)
            matches Some(e) ==> r == Err::<Vec<u8>, SessionError>(e),
        parse_response(reply@) matches Ok(v) ==> (is_session_frame(old(channel)@, v) && v.3.unwrap()
            != response_mac(old(channel)@, v.2)) ==> r == Err::<Vec<u8>, SessionError>(
            SessionError::Channel(ChannelError::IntegrityError),
        ) && final(channel)@ == closed(old(channel)@),
        forall|p: Seq<u8>|
            (parse_response(reply@) is Ok && #[trigger] delivers(
                old(channel)@,
                parse_response(reply@)->Ok_0,
                p,
            )) ==> {
                &&& parse_response(p) matches Err(e) ==> r == Err::<Vec<u8>, SessionError>(
                    SessionError::Framing(e),
                ) && final(channel)@ == closed(old(channel)@)
                &&& parse_response(p) matches Ok(w) ==> response_check(w.0, t) matches Some(e)
                    ==> r == Err::<Vec<u8>, SessionError>(e)
                &&& parse_response(p) matches Ok(w) ==> response_check(w.0, t) is None ==> (r matches Ok(
                    d,
                ) && d@ == w.2)
            },
{
    let response = match ResponseMessage::parse(reply) {
        Ok(m) => m,
        Err(e) => {
            channel.close();
            return Err(SessionError::Framing(e));
        },
    };
    match check_response(&response, CommandType::SessionMessage) {
        Ok(()) => {},
        Err(e) => {
            return Err(e);
        },
    }
    let plaintext = match channel.decrypt_response(&response) {
        Ok(p) => p,
        Err(e) => {
            return Err(SessionError::Channel(e));
        },
    };
    let inner = match ResponseMessage::parse(plaintext.as_slice()) {
        Ok(m) => m,
        Err(e) => {
            channel.close();
            return Err(SessionError::Framing(e));
        },
    };
    match check_response(&inner, t) {
        Ok(()) => Ok(inner.data),
        Err(e) => Err(e),
    }
}

/// What a reply to a command of type `expected` yields: its parsed form
/// when it is a success answering that type, or the error it gives.
pub open spec fn reply_outcome(reply: Seq<u8>, expected: CommandType) -> Result<
    ResponseView,
    SessionError,
> {
    match parse_response(reply) {
        Err(e) => Err(SessionError::Framing(e)),
        Ok(v) => match response_check(v.0, expected) {
            Some(e) => Err(e),
            None => Ok(v),
        },
    }
}

/// Parse a reply and check that it is a success answering `expected`.
pub fn check_reply(reply: &[u8], expected: CommandType) -> (r: Result<
    ResponseMessage,
    SessionError,
>)
    ensures
        r matches Ok(m) ==> reply_outcome(reply@, expected) == Ok::<ResponseView, SessionError>(m@),
        r matches Err(e) ==> reply_outcome(reply@, expected) == Err::<ResponseView, SessionError>(
            e,
        ),
{
    let response = match ResponseMessage::parse(reply) {
        Ok(m) => m,
        Err(e) => {
            return Err(SessionError::Framing(e));
        },
    };
    match check_response(&response, expected) {
        Ok(()) => Ok(response),
        Err(e) => Err(e),
    }
}

/// Take the device's answer to the authentication command. A success
/// answering it for this session opens the channel; a malformed reply, a
/// device error, a success of another type or for another session closes it.
pub fn finish_authentication(channel: &mut Channel, reply: &[u8]) -> (r: Result<(), SessionError>)
    requires
        old(channel).inv(),
        old(channel)@.state is Authenticating,
    ensures
        final(channel).inv(),
        r is Ok ==> final(channel)@ == opened(old(channel)@),
        r is Err ==> final(channel)@ == closed(old(channel)@),
        reply_outcome(reply@, CommandType::AuthSession) matches Err(e) ==> r == Err::<
            (),
            SessionError,
        >(e),
        reply_outcome(reply@, CommandType::AuthSession) matches Ok(v) ==> {
            &&& (v.1 == Some(old(channel)@.id) <==> r is Ok)
            &&& v.1 != Some(old(channel)@.id) ==> r == Err::<(), SessionError>(
                SessionError::Channel(ChannelError::AuthenticationFailed),
            )
        },
{
    let response = match check_reply(reply, CommandType::AuthSession) {
        Ok(m) => m,
        Err(e) => {
            channel.close();
            return Err(e);
        },
    };
    match channel.finish_authenticate_session(&response) {
        Ok(()) => Ok(()),
        Err(e) => Err(SessionError::Channel(e)),
    }
}

/// Whether an error leaves the channel closed: a transport failure, a
/// malformed or unauthentic reply, a lost session, or a failure to name the
/// request after its command was sealed.
pub open spec fn closes_channel(e: SessionError) -> bool {
    ||| e is Transport
    ||| e is Framing
    ||| e is Key
    ||| e == SessionError::SessionLost
    ||| e == SessionError::Channel(ChannelError::IntegrityError)
    ||| e == SessionError::Channel(ChannelError::ProtocolError)
}

/// Whether the call succeeded, keeping the error.
pub open spec fn outcome_of<T>(r: Result<T, SessionError>) -> Result<(), SessionError> {
    match r {
        Ok(_) => Ok(()),
        Err(e) => Err(e),
    }
}

/// What sending one encrypted command of type `t` with `payload` does to a
/// channel: the channel's own refusals leave it unchanged; once the command
/// is sealed the channel has advanced by exactly one command, and is closed
/// when the call failed in a way that leaves it unusable.
pub open spec fn command_effect(
    old: ChannelView,
    new: ChannelView,
    t: CommandType,
    payload: Seq<u8>,
    outcome: Result<(), SessionError>,
) -> bool {
    &&& new.id == old.id
    &&& old.state is Closed ==> outcome == Err::<(), SessionError>(
        SessionError::Channel(ChannelError::SessionClosed),
    ) && new == old
    &&& old.state is Authenticating ==> outcome == Err::<(), SessionError>(
        SessionError::Channel(ChannelError::NotAuthenticated),
    ) && new == old
    &&& old.state is Open && payload.len() > MAX_COMMAND_PAYLOAD ==> outcome == Err::<
        (),
        SessionError,
    >(SessionError::Channel(ChannelError::PayloadTooLarge)) && new == old
    &&& old.state is Open && payload.len() <= MAX_COMMAND_PAYLOAD && old.counter == MAX_COUNTER
        ==> outcome == Err::<(), SessionError>(
        SessionError::Channel(ChannelError::CounterExhausted),
    )
        && new == old
    &&& old.state is Open && payload.len() <= MAX_COMMAND_PAYLOAD && old.counter < MAX_COUNTER
        ==> new == consumed(after_command(old, t, payload)) || new == after_command(old, t, payload)
        || new == closed(after_command(old, t, payload))
    &&& outcome is Ok ==> new == consumed(after_command(old, t, payload))
    &&& outcome matches Err(e) ==> closes_channel(e) ==> new.state is Closed
}

/// An encrypted session with the device.
pub struct Session<C: Connector> {
    id: u8,
    channel: Channel,
    connector: C,
    static_keys: Option<StaticKeys>,
}

/// Whether the intermediary reports itself healthy: its status message is `OK`.
pub fn status_is_ok(status: &Status) -> (r: bool)
    ensures
        r == (status.message@ == seq!['O', 'K']),
{
    let c = chars_of(status.message.as_str());
    let ok = ['O', 'K'];
    assert(ok@ =~= seq!['O', 'K']);
    assert(c@.subrange(0, c@.len() as int) == c@);
    range_is(&c, 0, c.len(), &ok)
}

/// Decide on the intermediary's status report: only a status of `OK` lets
/// a session be opened; any other fails with `CreateFailed`.
pub fn check_status(status: &Status) -> (r: Result<(), SessionError>)
    ensures
        r is Ok <==> status.message@ == seq!['O', 'K'],
        r matches Err(e) ==> e == SessionError::CreateFailed,
{
    if status_is_ok(status) {
        Ok(())
    } else {
        Err(SessionError::CreateFailed)
    }
}

/// The errors that opening a session can end in.
pub open spec fn handshake_error(e: SessionError) -> bool {
    ||| e is Framing
    ||| e matches SessionError::Transport(Phase::Handshake, _)
    ||| e is Key
    ||| e is ResponseError
    ||| e is Channel
    ||| e == SessionError::ProtocolError
    ||| e == SessionError::SessionLost
    ||| e == SessionError::AuthFailed
    ||| e == SessionError::CreateFailed
}

impl<C: Connector> Session<C> {
    /// The secure channel of this session.
    pub closed spec fn channel_view(&self) -> crate::channel::ChannelView {
        self.channel@
    }

    /// The channel's invariant, and the session id is the channel's.
    pub closed spec fn wf(&self) -> bool {
        self.channel.inv() && self.id == self.channel@.id
    }

    /// Open a session: send `CreateSession` with the given host challenge,
    /// verify the device's cryptogram, then authenticate with the host's.
    /// On success the channel is open, keyed from the static keys, this
    /// challenge and the card challenge the device sent.
    pub fn new_with_challenge(
        connector: C,
        auth_key_id: u16,
        static_keys: StaticKeys,
        host: Challenge,
        reconnect: bool,
    ) -> (r: Result<Session<C>, SessionError>)
        ensures
            r matches Ok(s) ==> s.wf() && exists|card: Seq<u8>|
                s.channel_view() == opened(
                    #[trigger] keyed(s.channel_view().id, static_keys.enc(), static_keys.mac(), host.bytes@, card),
                ),
            r matches Err(e) ==> handshake_error(e),
    {
        let command = CreateSessionCommand { auth_key_id, host_challenge: host };
        let message = match command.to_message() {
            Ok(m) => m,
            Err(e) => {
                return Err(SessionError::Framing(e));
            },
        };
        let id = match random_correlation_id() {
            Some(id) => id,
            None => {
                return Err(SessionError::Key(KeyError::RandomSourceFailed));
            },
        };
        let reply = match connector.send_command(id, message.serialize()) {
            Ok(b) => b,
            Err(e) => {
                return Err(SessionError::Transport(Phase::Handshake, e));
            },
        };
        let channel = match open_channel(&static_keys, &host, reply.as_slice()) {
            Ok(c) => c,
            Err(e) => {
                return Err(e);
            },
        };
        let keys = if reconnect {
            Some(static_keys)
        } else {
            None
        };
        let mut session = Session { id: channel.id(), channel, connector, static_keys: keys };
        match session.authenticate() {
            Ok(()) => Ok(session),
            Err(e) => Err(e),
        }
    }

    /// Open a session with a fresh random host challenge.
    pub fn new(connector: C, auth_key_id: u16, static_keys: StaticKeys, reconnect: bool) -> (r: Result<
        Session<C>,
        SessionError,
    >)
        ensures
            r matches Ok(s) ==> s.wf() && s.channel_view().state is Open,
            r matches Err(e) ==> handshake_error(e),
    {
        let host = match Challenge::random() {
            Ok(c) => c,
            Err(e) => {
                return Err(SessionError::Key(e));
            },
        };
        Self::new_with_challenge(connector, auth_key_id, static_keys, host, reconnect)
    }

    /// Check the intermediary's health, then open a session: a status other
    /// than `OK` fails with `CreateFailed` before anything is sent.
    pub fn connect(connector: C, auth_key_id: u16, static_keys: StaticKeys, reconnect: bool) -> (r:
        Result<Session<C>, SessionError>)
        ensures
            r matches Ok(s) ==> s.wf() && s.channel_view().state is Open,
            r matches Err(e) ==> e matches SessionError::Transport(Phase::Status, _) || e
                == SessionError::CreateFailed || handshake_error(e),
    {
        let status = match connector.status() {
            Ok(s) => s,
            Err(e) => {
                return Err(SessionError::Transport(Phase::Status, e));
            },
        };
        match check_status(&status) {
            Ok(()) => {},
            Err(e) => {
                return Err(e);
            },
        }
        Self::new(connector, auth_key_id, static_keys, reconnect)
    }

    /// Send the host's cryptogram and take the device's acknowledgement; on
    /// any failure the channel is closed.
    fn authenticate(&mut self) -> (r: Result<(), SessionError>)
        requires
            old(self).wf(),
            old(self).channel@.state is Authenticating,
        ensures
            final(self).wf(),
            r is Ok ==> final(self).channel@ == opened(old(self).channel@),
            r is Err ==> final(self).channel@ == closed(old(self).channel@),
            r matches Err(e) ==> handshake_error(e),
    {
        let command = match self.channel.authenticate_session() {
            Ok(m) => m,
            Err(e) => {
                self.channel.close();
                return Err(SessionError::Channel(e));
            },
        };
        let id = match random_correlation_id() {
            Some(id) => id,
            None => {
                self.channel.close();
                return Err(SessionError::Key(KeyError::RandomSourceFailed));
            },
        };
        let reply = match self.connector.send_command(id, command.serialize()) {
            Ok(b) => b,
            Err(e) => {
                self.channel.close();
                return Err(SessionError::Transport(Phase::Handshake, e));
            },
        };
        finish_authentication(&mut self.channel, reply.as_slice())
    }

    /// Send a command frame under a fresh request id and check the reply,
    /// which must be a success answering the same command type.
    pub fn send_command(&self, command: &CommandMessage) -> (r: Result<
        ResponseMessage,
        SessionError,
    >)
        requires
            command.wf(),
        ensures
            r matches Ok(m) ==> exists|b: Seq<u8>|
                #[trigger] reply_outcome(b, command.command_type) == Ok::<
                    ResponseView,
                    SessionError,
                >(m@),
            r matches Err(e) ==> e == SessionError::Key(KeyError::RandomSourceFailed)
                || e matches SessionError::Transport(
                Phase::Command,
                _,
            ) || exists|b: Seq<u8>|
                #[trigger] reply_outcome(b, command.command_type) == Err::<
                    ResponseView,
                    SessionError,
                >(e),
    {
        let id = match random_correlation_id() {
            Some(id) => id,
            None => {
                return Err(SessionError::Key(KeyError::RandomSourceFailed));
            },
        };
        let bytes = match self.connector.send_command(id, command.serialize()) {
            Ok(b) => b,
            Err(e) => {
                return Err(SessionError::Transport(Phase::Command, e));
            },
        };
        check_reply(bytes.as_slice(), command.command_type)
    }

    /// Encrypt a command, send it, then check, decrypt and parse the
    /// response, which must answer the same command type; returns the
    /// response's data. The channel's refusals leave it unchanged; once the
    /// command is sealed the channel has advanced by one command, and a
    /// transport failure, a malformed or unauthentic reply or a lost session
    /// leave it closed.
    pub fn send_encrypted_command(&mut self, t: CommandType, payload: &[u8]) -> (r: Result<
        Vec<u8>,
        SessionError,
    >)
        requires
            old(self).wf(),
        ensures
            final(self).wf(),
            command_effect(
                old(self).channel_view(),
                final(self).channel_view(),
                t,
                payload@,
                outcome_of(r),
            ),
            r matches Ok(d) ==> answers(t, d@),
    {
        let command = match self.channel.encrypt_command(t, payload) {
            Ok(m) => m,
            Err(e) => {
                return Err(SessionError::Channel(e));
            },
        };
        let id = match random_correlation_id() {
            Some(id) => id,
            None => {
                self.channel.close();
                return Err(SessionError::Key(KeyError::RandomSourceFailed));
            },
        };
        let reply = match self.connector.send_command(id, command.serialize()) {
            Ok(b) => b,
            Err(e) => {
                self.channel.close();
                return Err(SessionError::Transport(Phase::Command, e));
            },
        };
        let r = receive_encrypted_response(&mut self.channel, t, reply.as_slice());
        match r {
            Err(SessionError::SessionLost) => {
                self.channel.close();
                Err(SessionError::SessionLost)
            },
            Ok(d) => Ok(d),
            Err(e) => Err(e),
        }
    }

    /// The session id.
    pub fn id(&self) -> (r: u8)
        requires
            self.wf(),
        ensures
            r == self.channel_view().id,
    {
        self.id
    }

    /// The health of the transport.
    pub fn connector_status(&self) -> (r: Result<Status, SessionError>)
        ensures
            r matches Err(e) ==> e matches SessionError::Transport(Phase::Status, _),
    {
        match self.connector.status() {
            Ok(s) => Ok(s),
            Err(e) => Err(SessionError::Transport(Phase::Status, e)),
        }
    }
}

} // verus!

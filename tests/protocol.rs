use std::cell::RefCell;
use yubihsm::channel::{ChannelState, MAX_COMMAND_PAYLOAD, MAX_COUNTER};
use yubihsm::keys::{compute_cryptogram, derive_session_keys, PBKDF2_ITERATIONS, PBKDF2_SALT};
use yubihsm::{
    check_reply, check_response, finish_authentication, open_channel, receive_encrypted_response,
    check_status, status_is_ok, sign_ecdsa_sha2, Challenge, Channel, ChannelError, CommandMessage, CommandType,
    Connector, ConnectorError, FramingError, KeyError, ResponseCode, ResponseMessage, Role,
    Session, SessionError, StaticKeys, Status,
};

const HOST: [u8; 8] = [1, 2, 3, 4, 5, 6, 7, 8];
const CARD: [u8; 8] = [0xa1, 0xb2, 0xc3, 0xd4, 0xe5, 0xf6, 0x07, 0x18];
const SESSION_ID: u8 = 3;

fn test_keys() -> StaticKeys {
    StaticKeys::derive_from_password(b"password", &PBKDF2_SALT, PBKDF2_ITERATIONS)
}

/// A device that answers the handshake and echoes decrypted commands.
struct Simulator {
    keys: StaticKeys,
    flip_bit: Option<(usize, u8)>,
    channel: RefCell<Option<Channel>>,
}

impl Simulator {
    fn new(flip_bit: Option<(usize, u8)>) -> Self {
        Simulator { keys: test_keys(), flip_bit, channel: RefCell::new(None) }
    }
}

impl Connector for Simulator {
    fn send_command(&self, _id: u128, request: Vec<u8>) -> Result<Vec<u8>, ConnectorError> {
        let data = request[3..].to_vec();
        let mut slot = self.channel.borrow_mut();
        match request[0] {
            0x03 => {
                let mut host = [0u8; 8];
                host.copy_from_slice(&data[2..10]);
                let ch = Channel::new(SESSION_ID, &self.keys, &Challenge::new(host), &Challenge::new(CARD));
                let mut crypt = ch.card_cryptogram().bytes;
                if let Some((i, b)) = self.flip_bit {
                    crypt[i] ^= 1 << b;
                }
                let mut body = CARD.to_vec();
                body.extend_from_slice(&crypt);
                *slot = Some(ch);
                let r = ResponseMessage {
                    code: ResponseCode::Success(CommandType::CreateSession),
                    session_id: Some(SESSION_ID),
                    data: body,
                    mac: None,
                };
                Ok(r.serialize())
            }
            0x04 => {
                let ch = slot.as_mut().unwrap();
                let cmd = CommandMessage { command_type: CommandType::AuthSession, correlation_id: 0, data };
                Ok(ch.accept_authentication(&cmd).serialize())
            }
            0x05 => {
                let ch = slot.as_mut().unwrap();
                let cmd = CommandMessage { command_type: CommandType::SessionMessage, correlation_id: 0, data };
                let inner = ch.open_command(&cmd).map_err(|_| ConnectorError::Framing)?;
                let t = CommandType::from_u8(inner[0]).unwrap();
                let reply = ResponseMessage {
                    code: ResponseCode::Success(t),
                    session_id: None,
                    data: inner[3..].to_vec(),
                    mac: None,
                };
                Ok(ch.seal_response(&reply.serialize()).unwrap().serialize())
            }
            _ => Err(ConnectorError::Framing),
        }
    }

    fn status(&self) -> Result<Status, ConnectorError> {
        Status::parse("status=OK\nserial=*\nversion=2.0.0\npid=1\n")
    }
}

/// Host and device channels, both open, keyed alike.
fn open_pair() -> (Channel, Channel) {
    let keys = test_keys();
    let host = Challenge::new(HOST);
    let card = Challenge::new(CARD);
    let mut h = Channel::establish(SESSION_ID, &keys, &host, &card, &Channel::new(SESSION_ID, &keys, &host, &card).card_cryptogram()).unwrap();
    let mut d = Channel::new(SESSION_ID, &keys, &host, &card);
    let auth = h.authenticate_session().unwrap();
    let ack = d.accept_authentication(&auth);
    h.finish_authenticate_session(&ack).unwrap();
    (h, d)
}

#[test]
fn password_keys_are_deterministic() {
    let a = StaticKeys::derive_from_password(b"password", &PBKDF2_SALT, PBKDF2_ITERATIONS);
    let b = StaticKeys::derive_from_password(b"password", &PBKDF2_SALT, PBKDF2_ITERATIONS);
    let mut ka = a.enc_key().to_vec();
    ka.extend_from_slice(&a.mac_key());
    let mut kb = b.enc_key().to_vec();
    kb.extend_from_slice(&b.mac_key());
    assert_eq!(ka.len(), 32);
    assert_eq!(ka, kb);
    assert_eq!(
        a.enc_key(),
        [0x09, 0x0b, 0x47, 0xdb, 0xed, 0x59, 0x56, 0x54, 0x90, 0x1d, 0xee, 0x1c, 0xc6, 0x55, 0xe4, 0x20]
    );
    assert_eq!(
        a.mac_key(),
        [0x59, 0x2f, 0xd4, 0x83, 0xf7, 0x59, 0xe2, 0x99, 0x09, 0xa0, 0x4c, 0x45, 0x05, 0xd2, 0xce, 0x0a]
    );
    let c = StaticKeys::derive_from_password(b"passwore", &PBKDF2_SALT, PBKDF2_ITERATIONS);
    assert_ne!(a.enc_key(), c.enc_key());
}

#[test]
fn from_raw_checks_lengths() {
    assert!(matches!(StaticKeys::from_raw(&[0u8; 15], &[0u8; 16]), Err(KeyError::InvalidLength)));
    assert!(matches!(StaticKeys::from_raw(&[0u8; 16], &[0u8; 17]), Err(KeyError::InvalidLength)));
    let k = StaticKeys::from_raw(&[7u8; 16], &[9u8; 16]).unwrap();
    assert_eq!(k.enc_key(), [7u8; 16]);
    assert_eq!(k.mac_key(), [9u8; 16]);
}

#[test]
fn session_keys_and_cryptograms_are_deterministic() {
    let keys = test_keys();
    let host = Challenge::new(HOST);
    let card = Challenge::new(CARD);
    let a = derive_session_keys(&keys, &host, &card);
    let b = derive_session_keys(&keys, &host, &card);
    assert_eq!(a, b);
    assert_ne!(a.0, keys.enc_key());
    assert_ne!(a.1, a.2);
    let ca = compute_cryptogram(&a.1, Role::Card, &host, &card);
    let cb = compute_cryptogram(&b.1, Role::Card, &host, &card);
    assert_eq!(ca.bytes, cb.bytes);
    let hc = compute_cryptogram(&a.1, Role::Host, &host, &card);
    assert_ne!(ca.bytes, hc.bytes);
    let other = derive_session_keys(&keys, &Challenge::new(CARD), &Challenge::new(HOST));
    assert_ne!(a.0, other.0);
}

#[test]
fn random_challenges_differ() {
    let a = Challenge::random().unwrap();
    let b = Challenge::random().unwrap();
    assert_ne!(a.bytes, b.bytes);
}

#[test]
fn flipped_card_cryptogram_is_rejected() {
    let keys = test_keys();
    let host = Challenge::new(HOST);
    let card = Challenge::new(CARD);
    let good = Channel::new(SESSION_ID, &keys, &host, &card).card_cryptogram();
    assert!(Channel::establish(SESSION_ID, &keys, &host, &card, &good).is_ok());
    for i in 0..8 {
        for bit in 0..8 {
            let mut bad = good;
            bad.bytes[i] ^= 1 << bit;
            assert!(matches!(
                Channel::establish(SESSION_ID, &keys, &host, &card, &bad),
                Err(ChannelError::AuthenticationFailed)
            ));
        }
    }
}

#[test]
fn full_handshake_opens_channel() {
    let s = Session::new_with_challenge(Simulator::new(None), 1, test_keys(), Challenge::new(HOST), false).unwrap();
    assert_eq!(s.id(), SESSION_ID);
}

#[test]
fn handshake_with_flipped_cryptogram_fails() {
    let r = Session::new_with_challenge(Simulator::new(Some((2, 5))), 1, test_keys(), Challenge::new(HOST), false);
    assert!(matches!(r, Err(SessionError::AuthFailed)));
}

#[test]
fn handshake_with_other_keys_fails() {
    let wrong = StaticKeys::new([1u8; 16], [2u8; 16]);
    let r = Session::new_with_challenge(Simulator::new(None), 1, wrong, Challenge::new(HOST), true);
    assert!(matches!(r, Err(SessionError::AuthFailed)));
}

#[test]
fn echo_hello_through_simulator() {
    let mut s = Session::new(Simulator::new(None), 1, test_keys(), false).unwrap();
    assert_eq!(s.echo(b"hello").unwrap(), b"hello".to_vec());
    assert_eq!(s.echo(b"again").unwrap(), b"again".to_vec());
    assert_eq!(s.connector_status().unwrap().message, "OK");
}

#[test]
fn encrypt_decrypt_round_trip() {
    let (mut h, mut d) = open_pair();
    assert_eq!(h.state(), ChannelState::Open);
    assert_eq!(h.counter(), 1);
    for payload in [Vec::new(), b"x".to_vec(), vec![0xabu8; 15], vec![0x11u8; 16], vec![0x5au8; MAX_COMMAND_PAYLOAD]] {
        let cmd = h.encrypt_command(CommandType::Echo, &payload).unwrap();
        assert_eq!(cmd.command_type, CommandType::SessionMessage);
        if payload.len() >= 8 {
            assert!(!cmd.data.windows(payload.len()).any(|w| w == &payload[..]));
        }
        let inner = d.open_command(&cmd).unwrap();
        assert_eq!(inner[0], 0x01);
        assert_eq!(&inner[3..], &payload[..]);
        let reply = d.seal_response(b"reply bytes").unwrap();
        let wire = ResponseMessage::parse(&reply.serialize()).unwrap();
        assert_eq!(h.decrypt_response(&wire).unwrap(), b"reply bytes".to_vec());
    }
    assert_eq!(h.counter(), 6);
}

#[test]
fn payload_over_limit_is_refused() {
    let (mut h, _d) = open_pair();
    let big = vec![0u8; MAX_COMMAND_PAYLOAD + 1];
    assert!(matches!(h.encrypt_command(CommandType::Echo, &big), Err(ChannelError::PayloadTooLarge)));
    assert_eq!(h.counter(), 1);
    assert!(MAX_COUNTER > 1);
}

#[test]
fn corrupted_response_mac_is_rejected() {
    for i in 0..8 {
        let (mut h, mut d) = open_pair();
        let cmd = h.encrypt_command(CommandType::Echo, b"hi").unwrap();
        d.open_command(&cmd).unwrap();
        let mut reply = d.seal_response(b"secret").unwrap();
        let mut mac = reply.mac.unwrap();
        mac[i] ^= 0x40;
        reply.mac = Some(mac);
        assert!(matches!(h.decrypt_response(&reply), Err(ChannelError::IntegrityError)));
        assert_eq!(h.state(), ChannelState::Closed);
        assert!(matches!(h.encrypt_command(CommandType::Echo, b"hi"), Err(ChannelError::SessionClosed)));
    }
}

#[test]
fn corrupted_command_mac_is_rejected() {
    for i in 0..8 {
        let (mut h, mut d) = open_pair();
        let mut cmd = h.encrypt_command(CommandType::Echo, b"hi").unwrap();
        let n = cmd.data.len();
        cmd.data[n - 8 + i] ^= 0x01;
        assert!(matches!(d.open_command(&cmd), Err(ChannelError::IntegrityError)));
        assert_eq!(d.counter(), 1);
    }
}

#[test]
fn counters_advance_and_replay_is_refused() {
    let (mut h, mut d) = open_pair();
    let first = h.encrypt_command(CommandType::Echo, b"same").unwrap();
    let second = h.encrypt_command(CommandType::Echo, b"same").unwrap();
    assert_eq!(&first.data[1..5], &[0, 0, 0, 1]);
    assert_eq!(&second.data[1..5], &[0, 0, 0, 2]);
    assert_ne!(first.data[5..], second.data[5..]);
    d.open_command(&first).unwrap();
    assert!(matches!(d.open_command(&first), Err(ChannelError::ProtocolError)));
    assert!(d.open_command(&second).is_ok());
}

#[test]
fn not_yet_open_channel_refuses_commands() {
    let keys = test_keys();
    let mut h = Channel::new(SESSION_ID, &keys, &Challenge::new(HOST), &Challenge::new(CARD));
    assert!(matches!(h.encrypt_command(CommandType::Echo, b"x"), Err(ChannelError::NotAuthenticated)));
    let nack = ResponseMessage { code: ResponseCode::AuthenticationFailed, session_id: None, data: vec![], mac: None };
    assert!(matches!(h.finish_authenticate_session(&nack), Err(ChannelError::AuthenticationFailed)));
    assert_eq!(h.state(), ChannelState::Closed);
    assert!(matches!(h.authenticate_session(), Err(ChannelError::SessionClosed)));
}

#[test]
fn device_rejects_wrong_host_cryptogram() {
    let keys = test_keys();
    let mut d = Channel::new(SESSION_ID, &keys, &Challenge::new(HOST), &Challenge::new(CARD));
    let cmd = CommandMessage { command_type: CommandType::AuthSession, correlation_id: 0, data: vec![SESSION_ID, 0, 0, 0, 0, 0, 0, 0, 0] };
    let r = d.accept_authentication(&cmd);
    assert_eq!(r.code, ResponseCode::AuthenticationFailed);
    assert_eq!(d.state(), ChannelState::Closed);
}

#[test]
fn mismatched_response_type_is_protocol_error() {
    let r = ResponseMessage { code: ResponseCode::Success(CommandType::Blink), session_id: None, data: vec![], mac: None };
    assert!(matches!(check_response(&r, CommandType::Echo), Err(SessionError::ProtocolError)));
    assert!(check_response(&r, CommandType::Blink).is_ok());
    let e = ResponseMessage { code: ResponseCode::ObjectNotFound, session_id: None, data: vec![], mac: None };
    assert!(matches!(check_response(&e, CommandType::Echo), Err(SessionError::ResponseError(ResponseCode::ObjectNotFound))));
    let lost = ResponseMessage { code: ResponseCode::InvalidSession, session_id: None, data: vec![], mac: None };
    assert!(matches!(check_response(&lost, CommandType::Echo), Err(SessionError::SessionLost)));
}

#[test]
fn open_channel_rejects_bad_replies() {
    let keys = test_keys();
    let host = Challenge::new(HOST);
    assert!(matches!(open_channel(&keys, &host, &[0x83, 0x00]), Err(SessionError::Framing(FramingError::TooShort))));
    assert!(matches!(open_channel(&keys, &host, &[0x81, 0x00, 0x00]), Err(SessionError::ProtocolError)));
    assert!(matches!(open_channel(&keys, &host, &[0x83, 0x00, 0x02, SESSION_ID, 1]), Err(SessionError::ProtocolError)));
}

#[test]
fn response_framing() {
    assert!(matches!(ResponseMessage::parse(&[0x81, 0x00]), Err(FramingError::TooShort)));
    assert!(matches!(ResponseMessage::parse(&[0x81, 0x00, 0x02, 0x01]), Err(FramingError::LengthMismatch)));
    assert!(matches!(ResponseMessage::parse(&[0x00, 0x00, 0x00]), Err(FramingError::UnknownCode)));
    assert!(matches!(ResponseMessage::parse(&[0x85, 0x00, 0x03, 0x01, 0x02, 0x03]), Err(FramingError::TooShort)));
    let echo = ResponseMessage::parse(&[0x81, 0x00, 0x02, b'h', b'i']).unwrap();
    assert!(!echo.is_err());
    assert_eq!(echo.command(), Some(CommandType::Echo));
    assert_eq!(echo.data, b"hi".to_vec());
    let err = ResponseMessage::parse(&[0x75, 0x00, 0x00]).unwrap();
    assert!(err.is_err());
    assert_eq!(err.command(), None);
    let m = ResponseMessage { code: ResponseCode::Success(CommandType::SessionMessage), session_id: Some(9), data: vec![1, 2, 3], mac: Some([8u8; 8]) };
    let bytes = m.serialize();
    assert_eq!(bytes[..4], [0x85, 0x00, 12, 9]);
    let back = ResponseMessage::parse(&bytes).unwrap();
    assert_eq!(back.session_id, Some(9));
    assert_eq!(back.data, vec![1, 2, 3]);
    assert_eq!(back.mac, Some([8u8; 8]));
}

#[test]
fn command_framing() {
    assert!(matches!(CommandMessage::new(CommandType::Echo, vec![0u8; 2046]), Err(FramingError::PayloadTooLarge)));
    let m = CommandMessage::with_correlation_id(CommandType::Blink, 7, vec![5]).unwrap();
    assert_eq!(m.serialize(), vec![0x6b, 0x00, 0x01, 0x05]);
    assert_eq!(CommandType::from_u8(0x6b), Some(CommandType::Blink));
    assert_eq!(CommandType::from_u8(0x02), None);
    assert_eq!(ResponseCode::from_u8(0x81), Some(ResponseCode::Success(CommandType::Echo)));
    assert_eq!(ResponseCode::Success(CommandType::Echo).to_u8(), 0x81);
}

#[test]
fn reply_of_other_type_is_protocol_error() {
    let (mut h, mut d) = open_pair();
    let cmd = h.encrypt_command(CommandType::Echo, b"x").unwrap();
    d.open_command(&cmd).unwrap();
    let inner = ResponseMessage { code: ResponseCode::Success(CommandType::Blink), session_id: None, data: vec![], mac: None };
    let reply = d.seal_response(&inner.serialize()).unwrap().serialize();
    assert!(matches!(receive_encrypted_response(&mut h, CommandType::Echo, &reply), Err(SessionError::ProtocolError)));
    assert_eq!(h.state(), ChannelState::Open);
}

#[test]
fn reply_of_same_type_is_returned() {
    let (mut h, mut d) = open_pair();
    let cmd = h.encrypt_command(CommandType::Echo, b"x").unwrap();
    d.open_command(&cmd).unwrap();
    let inner = ResponseMessage { code: ResponseCode::Success(CommandType::Echo), session_id: None, data: b"x".to_vec(), mac: None };
    let reply = d.seal_response(&inner.serialize()).unwrap().serialize();
    assert_eq!(receive_encrypted_response(&mut h, CommandType::Echo, &reply).unwrap(), b"x".to_vec());
    assert!(matches!(receive_encrypted_response(&mut h, CommandType::Echo, &reply), Err(SessionError::Channel(ChannelError::ProtocolError))));
    let (mut h2, mut d2) = open_pair();
    let cmd2 = h2.encrypt_command(CommandType::Echo, b"x").unwrap();
    d2.open_command(&cmd2).unwrap();
    let mut tampered = d2.seal_response(&inner.serialize()).unwrap().serialize();
    let n = tampered.len();
    tampered[n - 1] ^= 0xff;
    assert!(matches!(receive_encrypted_response(&mut h2, CommandType::Echo, &tampered), Err(SessionError::Channel(ChannelError::IntegrityError))));
    assert_eq!(h2.state(), ChannelState::Closed);
}

#[test]
fn command_payload_encodings() {
    let mut s = Session::new(Simulator::new(None), 1, test_keys(), false).unwrap();
    assert_eq!(s.blink(3).unwrap(), vec![3]);
    assert_eq!(s.delete_object(0x0102, 3).unwrap(), vec![1, 2, 3]);
    assert_eq!(s.get_pubkey(0x1234).unwrap(), vec![0x12, 0x34]);
    assert_eq!(s.list_objects().unwrap(), Vec::<u8>::new());
    assert_eq!(s.attest_asymmetric(1, 2).unwrap(), vec![0, 1, 0, 2]);
    assert_eq!(s.export_wrapped(7, 2, 9).unwrap(), vec![0, 7, 2, 0, 9]);
    let label = [b'k'; 40];
    let gen = s.generate_asymmetric_key(5, &label, 0x0003, 0x0102030405060708, 12).unwrap();
    let mut want = vec![0, 5];
    want.extend_from_slice(&label);
    want.extend_from_slice(&[0, 3, 1, 2, 3, 4, 5, 6, 7, 8, 12]);
    assert_eq!(gen, want);
    let wrap = s.generate_wrap_key(5, &label, 0x0003, 0x0102030405060708, 12, 0xff).unwrap();
    want.extend_from_slice(&[0, 0, 0, 0, 0, 0, 0, 0xff]);
    assert_eq!(wrap, want);
    assert_eq!(s.sign_data_eddsa(0x0001, b"msg").unwrap(), b"\x00\x01msg".to_vec());
}

#[test]
fn ecdsa_sha2_sends_digest() {
    let mut s = Session::new(Simulator::new(None), 1, test_keys(), false).unwrap();
    let sig = sign_ecdsa_sha2(&mut s, 0x0009, b"abc").unwrap();
    let mut want = vec![0x00, 0x09];
    want.extend_from_slice(&[
        0xba, 0x78, 0x16, 0xbf, 0x8f, 0x01, 0xcf, 0xea, 0x41, 0x41, 0x40, 0xde, 0x5d, 0xae, 0x22, 0x23,
        0xb0, 0x03, 0x61, 0xa3, 0x96, 0x17, 0x7a, 0x9c, 0xb4, 0x10, 0xff, 0x61, 0xf2, 0x00, 0x15, 0xad,
    ]);
    assert_eq!(sig.into_vec(), want);
}

#[test]
fn check_reply_outcomes() {
    assert!(matches!(check_reply(&[0x81, 0x00], CommandType::Echo), Err(SessionError::Framing(FramingError::TooShort))));
    assert!(matches!(check_reply(&[0x81, 0x00, 0x00], CommandType::Blink), Err(SessionError::ProtocolError)));
    assert!(matches!(check_reply(&[0x75, 0x00, 0x00], CommandType::Echo), Err(SessionError::ResponseError(ResponseCode::ObjectNotFound))));
    let m = check_reply(&[0x81, 0x00, 0x01, 7], CommandType::Echo).unwrap();
    assert_eq!(m.data, vec![7]);
}

#[test]
fn authentication_reply_handling() {
    let keys = test_keys();
    let fresh = || Channel::new(SESSION_ID, &keys, &Challenge::new(HOST), &Challenge::new(CARD));
    let mut ok = fresh();
    assert!(finish_authentication(&mut ok, &[0x84, 0x00, 0x01, SESSION_ID]).is_ok());
    assert_eq!(ok.state(), ChannelState::Open);
    assert_eq!(ok.counter(), 1);
    let mut other = fresh();
    assert!(matches!(finish_authentication(&mut other, &[0x84, 0x00, 0x01, SESSION_ID + 1]), Err(SessionError::Channel(ChannelError::AuthenticationFailed))));
    assert_eq!(other.state(), ChannelState::Closed);
    let mut bad = fresh();
    assert!(matches!(finish_authentication(&mut bad, &[0x84, 0x00]), Err(SessionError::Framing(FramingError::TooShort))));
    assert_eq!(bad.state(), ChannelState::Closed);
    let mut refused = fresh();
    assert!(matches!(finish_authentication(&mut refused, &[0x7b, 0x00, 0x00]), Err(SessionError::ResponseError(ResponseCode::AuthenticationFailed))));
    assert_eq!(refused.state(), ChannelState::Closed);
}

#[test]
fn connect_checks_status_first() {
    let s = Session::connect(Simulator::new(None), 1, test_keys(), false).unwrap();
    assert_eq!(s.id(), SESSION_ID);
    let healthy = Status::parse("status=OK\nserial=*\nversion=1\npid=1").unwrap();
    assert!(status_is_ok(&healthy));
    let sick = Status::parse("status=NO_DEVICE\nserial=*\nversion=1\npid=1").unwrap();
    assert!(!status_is_ok(&sick));
}

#[test]
fn transport_failure_closes_session_channel() {
    struct Failing;
    impl Connector for Failing {
        fn send_command(&self, _id: u128, _request: Vec<u8>) -> Result<Vec<u8>, ConnectorError> {
            Err(ConnectorError::Connection)
        }
        fn status(&self) -> Result<Status, ConnectorError> {
            Err(ConnectorError::Connection)
        }
    }
    let r = Session::new_with_challenge(Failing, 1, test_keys(), Challenge::new(HOST), false);
    assert!(matches!(r, Err(SessionError::Transport(_, ConnectorError::Connection))));
    assert!(matches!(Session::connect(Failing, 1, test_keys(), false), Err(SessionError::Transport(_, _))));
}

#[test]
fn response_is_taken_once() {
    let (mut h, mut d) = open_pair();
    let cmd = h.encrypt_command(CommandType::Echo, b"once").unwrap();
    d.open_command(&cmd).unwrap();
    let reply = d.seal_response(b"answer").unwrap();
    assert_eq!(h.decrypt_response(&reply).unwrap(), b"answer".to_vec());
    assert!(matches!(h.decrypt_response(&reply), Err(ChannelError::ProtocolError)));
    assert_eq!(h.state(), ChannelState::Closed);
}

#[test]
fn unhealthy_status_is_create_failed() {
    let ok = Status::parse("status=OK\nserial=*\nversion=1\npid=1").unwrap();
    assert!(check_status(&ok).is_ok());
    let bad = Status::parse("status=NO_DEVICE\nserial=*\nversion=1\npid=1").unwrap();
    assert!(matches!(check_status(&bad), Err(SessionError::CreateFailed)));
}

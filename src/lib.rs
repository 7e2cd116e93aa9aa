//! Client for hardware security modules that speak an authenticated,
//! encrypted session protocol over an untrusted transport.
//!
//! The verified core is the secure channel: static keys, challenges and
//! cryptograms, session-key derivation, the handshake state machine and the
//! per-command encrypt / decrypt pipeline with its chained MAC.

pub mod channel;
pub mod commands;
pub mod config;
pub mod crypto;
pub mod http;
pub mod keys;
pub mod message;
pub mod session;
pub mod status;

pub use channel::{Channel, ChannelError, ChannelState};
pub use commands::{sign_ecdsa_sha2, ECDSASignature};
pub use config::HttpConfig;
pub use keys::{Challenge, Cryptogram, KeyError, Role, StaticKeys};
pub use message::{CommandMessage, CommandType, FramingError, ResponseCode, ResponseMessage};
pub use session::{
    check_reply, check_response, check_status, finish_authentication, open_channel, receive_encrypted_response,
    status_is_ok, Connector, ConnectorError,
    CreateSessionCommand, Phase, Session,
    SessionError,
};
pub use status::Status;

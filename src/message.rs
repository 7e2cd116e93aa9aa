//! Framing of the messages exchanged with the device.
//!
//! A frame is a one-byte type or status tag, a two-byte big-endian length,
//! and that many bytes of payload.

use vstd::prelude::*;

verus! {

/// Largest frame, header included.
pub const MAX_MSG_SIZE: usize = 2048;

/// Largest payload of one frame.
pub const MAX_PAYLOAD_SIZE: usize = 2045;

/// Size of the truncated MAC carried by authenticated frames.
pub const MAC_SIZE: usize = 8;

/// The command (and matching response) types.
#[derive(Clone, Copy, Debug, PartialEq, Eq, Structural)]
pub enum CommandType {
    Echo,
    CreateSession,
    AuthSession,
    SessionMessage,
    CloseSession,
    PutAsymmetricKey,
    GenAsymmetricKey,
    ListObjects,
    ExportWrapped,
    PutWrapKey,
    GetObjectInfo,
    GetPubKey,
    SignDataECDSA,
    DeleteObject,
    GenerateWrapKey,
    AttestAsymmetric,
    WrapData,
    UnwrapData,
    SignDataEdDSA,
    Blink,
}

/// The wire tag of each command type; all lie below `0x80`.
pub open spec fn command_tag(t: CommandType) -> u8 {
    match t {
        CommandType::Echo => 0x01,
        CommandType::CreateSession => 0x03,
        CommandType::AuthSession => 0x04,
        CommandType::SessionMessage => 0x05,
        CommandType::CloseSession => 0x40,
        CommandType::PutAsymmetricKey => 0x45,
        CommandType::GenAsymmetricKey => 0x46,
        CommandType::ListObjects => 0x48,
        CommandType::ExportWrapped => 0x4a,
        CommandType::PutWrapKey => 0x4c,
        CommandType::GetObjectInfo => 0x4e,
        CommandType::GetPubKey => 0x54,
        CommandType::SignDataECDSA => 0x56,
        CommandType::DeleteObject => 0x58,
        CommandType::GenerateWrapKey => 0x5b,
        CommandType::AttestAsymmetric => 0x64,
        CommandType::WrapData => 0x68,
        CommandType::UnwrapData => 0x69,
        CommandType::SignDataEdDSA => 0x6a,
        CommandType::Blink => 0x6b,
    }
}

impl CommandType {
    /// The wire tag of this command type.
    pub fn to_u8(self) -> (r: u8)
        ensures
            r == command_tag(self),
            r < 0x80,
    {
        match self {
            CommandType::Echo => 0x01,
            CommandType::CreateSession => 0x03,
            CommandType::AuthSession => 0x04,
            CommandType::SessionMessage => 0x05,
            CommandType::CloseSession => 0x40,
            CommandType::PutAsymmetricKey => 0x45,
            CommandType::GenAsymmetricKey => 0x46,
            CommandType::ListObjects => 0x48,
            CommandType::ExportWrapped => 0x4a,
            CommandType::PutWrapKey => 0x4c,
            CommandType::GetObjectInfo => 0x4e,
            CommandType::GetPubKey => 0x54,
            CommandType::SignDataECDSA => 0x56,
            CommandType::DeleteObject => 0x58,
            CommandType::GenerateWrapKey => 0x5b,
            CommandType::AttestAsymmetric => 0x64,
            CommandType::WrapData => 0x68,
            CommandType::UnwrapData => 0x69,
            CommandType::SignDataEdDSA => 0x6a,
            CommandType::Blink => 0x6b,
        }
    }

    /// The command type with the given wire tag, if there is one.
    pub fn from_u8(b: u8) -> (r: Option<CommandType>)
        ensures
            r matches Some(t) ==> command_tag(t) == b,
            r is None ==> forall|t: CommandType| command_tag(t) != b,
    {
        match b {
            0x01 => Some(CommandType::Echo),
            0x03 => Some(CommandType::CreateSession),
            0x04 => Some(CommandType::AuthSession),
            0x05 => Some(CommandType::SessionMessage),
            0x40 => Some(CommandType::CloseSession),
            0x45 => Some(CommandType::PutAsymmetricKey),
            0x46 => Some(CommandType::GenAsymmetricKey),
            0x48 => Some(CommandType::ListObjects),
            0x4a => Some(CommandType::ExportWrapped),
            0x4c => Some(CommandType::PutWrapKey),
            0x4e => Some(CommandType::GetObjectInfo),
            0x54 => Some(CommandType::GetPubKey),
            0x56 => Some(CommandType::SignDataECDSA),
            0x58 => Some(CommandType::DeleteObject),
            0x5b => Some(CommandType::GenerateWrapKey),
            0x64 => Some(CommandType::AttestAsymmetric),
            0x68 => Some(CommandType::WrapData),
            0x69 => Some(CommandType::UnwrapData),
            0x6a => Some(CommandType::SignDataEdDSA),
            0x6b => Some(CommandType::Blink),
            _ => None,
        }
    }
}

/// Status of a response: success for a given command type, or an error
/// reported by the device.
#[derive(Clone, Copy, Debug, PartialEq, Eq, Structural)]
pub enum ResponseCode {
    Success(CommandType),
    MemoryError,
    InvalidCommand,
    InvalidData,
    InvalidSession,
    AuthenticationFailed,
    SessionsFull,
    SessionFailed,
    StorageFailed,
    WrongLength,
    InsufficientPermissions,
    ObjectNotFound,
}

/// The status byte of each response code: `0x80` plus the command tag on
/// success, bytes just below `0x80` for device errors.
pub open spec fn response_tag(c: ResponseCode) -> u8 {
    match c {
        ResponseCode::Success(t) => (0x80 + command_tag(t)) as u8,
        ResponseCode::MemoryError => 0x7f,
        ResponseCode::InvalidCommand => 0x7e,
        ResponseCode::InvalidData => 0x7d,
        ResponseCode::InvalidSession => 0x7c,
        ResponseCode::AuthenticationFailed => 0x7b,
        ResponseCode::SessionsFull => 0x7a,
        ResponseCode::SessionFailed => 0x79,
        ResponseCode::StorageFailed => 0x78,
        ResponseCode::WrongLength => 0x77,
        ResponseCode::InsufficientPermissions => 0x76,
        ResponseCode::ObjectNotFound => 0x75,
    }
}

impl ResponseCode {
    /// The status byte of this code.
    pub fn to_u8(self) -> (r: u8)
        ensures
            r == response_tag(self),
    {
        match self {
            ResponseCode::Success(t) => 0x80 + t.to_u8(),
            ResponseCode::MemoryError => 0x7f,
            ResponseCode::InvalidCommand => 0x7e,
            ResponseCode::InvalidData => 0x7d,
            ResponseCode::InvalidSession => 0x7c,
            ResponseCode::AuthenticationFailed => 0x7b,
            ResponseCode::SessionsFull => 0x7a,
            ResponseCode::SessionFailed => 0x79,
            ResponseCode::StorageFailed => 0x78,
            ResponseCode::WrongLength => 0x77,
            ResponseCode::InsufficientPermissions => 0x76,
            ResponseCode::ObjectNotFound => 0x75,
        }
    }

    /// The response code with the given status byte, if it is a recognised one.
    pub fn from_u8(b: u8) -> (r: Option<ResponseCode>)
        ensures
            r matches Some(c) ==> response_tag(c) == b,
            r is None ==> forall|c: ResponseCode| response_tag(c) != b,
    {
        if b >= 0x80 {
            match CommandType::from_u8(b - 0x80) {
                Some(t) => Some(ResponseCode::Success(t)),
                None => None,
            }
        } else {
            match b {
                0x7f => Some(ResponseCode::MemoryError),
                0x7e => Some(ResponseCode::InvalidCommand),
                0x7d => Some(ResponseCode::InvalidData),
                0x7c => Some(ResponseCode::InvalidSession),
                0x7b => Some(ResponseCode::AuthenticationFailed),
                0x7a => Some(ResponseCode::SessionsFull),
                0x79 => Some(ResponseCode::SessionFailed),
                0x78 => Some(ResponseCode::StorageFailed),
                0x77 => Some(ResponseCode::WrongLength),
                0x76 => Some(ResponseCode::InsufficientPermissions),
                0x75 => Some(ResponseCode::ObjectNotFound),
                _ => None,
            }
        }
    }

    /// Whether this code reports a failure on the device.
    pub fn is_err(self) -> (r: bool)
        ensures
            r == !(self is Success),
    {
        !matches!(self, ResponseCode::Success(_))
    }
}

/// Ways a frame can be malformed.
#[derive(Clone, Copy, Debug, PartialEq, Eq, Structural)]
pub enum FramingError {
    /// The payload does not fit in one frame.
    PayloadTooLarge,
    /// The buffer is shorter than the frame it claims to be.
    TooShort,
    /// The length field disagrees with the bytes that follow it.
    LengthMismatch,
    /// The status byte is no recognised response code.
    UnknownCode,
}

/// Two-byte big-endian encoding of `n` (below `0x10000`).
pub open spec fn be16(n: nat) -> Seq<u8> {
    seq![(n / 256) as u8, (n % 256) as u8]
}

/// The value of a two-byte big-endian field.
pub open spec fn be16_value(hi: u8, lo: u8) -> nat {
    (hi as nat) * 256 + (lo as nat)
}

/// A frame with the given tag and payload.
pub open spec fn frame(tag: u8, payload: Seq<u8>) -> Seq<u8> {
    seq![tag] + be16(payload.len()) + payload
}

pub(crate) fn push_be16(out: &mut Vec<u8>, n: u16)
    ensures
        final(out)@ == old(out)@ + be16(n as nat),
{
    out.push((n / 256) as u8);
    out.push((n % 256) as u8);
}

pub(crate) fn extend_bytes(out: &mut Vec<u8>, src: &[u8])
    ensures
        final(out)@ == old(out)@ + src@,
{
    let mut i: usize = 0;
    while i < src.len()
        invariant
            i <= src@.len(),
            out@ == old(out)@ + src@.subrange(0, i as int),
        decreases src@.len() - i,
    {
        out.push(src[i]);
        i = i + 1;
        assert(src@.subrange(0, i as int) == src@.subrange(0, i - 1) + seq![src@[i - 1]]);
    }
    assert(src@.subrange(0, i as int) == src@);
}

/// A copy of `src`.
pub(crate) fn copy_bytes(src: &[u8]) -> (r: Vec<u8>)
    ensures
        r@ == src@,
{
    let mut v: Vec<u8> = Vec::new();
    extend_bytes(&mut v, src);
    v
}

/// A command on its way to the device.
pub struct CommandMessage {
    /// Type of the command.
    pub command_type: CommandType,
    /// Identifier that the transport attaches to the request.
    pub correlation_id: u128,
    /// Payload of the frame.
    pub data: Vec<u8>,
}

impl CommandMessage {
    /// The payload fits in one frame.
    pub open spec fn wf(&self) -> bool {
        self.data@.len() <= MAX_PAYLOAD_SIZE
    }

    /// The bytes of this command on the wire.
    pub open spec fn spec_bytes(&self) -> Seq<u8> {
        frame(command_tag(self.command_type), self.data@)
    }

    /// A command of the given type and payload, under the given identifier.
    pub fn with_correlation_id(
        command_type: CommandType,
        correlation_id: u128,
        data: Vec<u8>,
    ) -> (r:
        Result<CommandMessage, FramingError>)
        ensures
            data@.len() <= MAX_PAYLOAD_SIZE <==> r is Ok,
            r matches Ok(m) ==> m.command_type == command_type && m.correlation_id == correlation_id
                && m.data@ == data@,
            r matches Err(e) ==> e == FramingError::PayloadTooLarge,
    {
        if data.len() > MAX_PAYLOAD_SIZE {
            Err(FramingError::PayloadTooLarge)
        } else {
            Ok(CommandMessage { command_type, correlation_id, data })
        }
    }

    /// A command of the given type and payload, with correlation id 0 until
    /// the session assigns one; fails when the payload does not fit in one
    /// frame.
    pub fn new(command_type: CommandType, data: Vec<u8>) -> (r: Result<CommandMessage, FramingError>)
        ensures
            data@.len() <= MAX_PAYLOAD_SIZE <==> r is Ok,
            r matches Ok(m) ==> m.command_type == command_type && m.data@ == data@
                && m.correlation_id == 0,
            r matches Err(e) ==> e == FramingError::PayloadTooLarge,
    {
        Self::with_correlation_id(command_type, 0, data)
    }

    /// The bytes of this command on the wire.
    pub fn serialize(&self) -> (r: Vec<u8>)
        requires
            self.wf(),
        ensures
            r@ == self.spec_bytes(),
    {
        let mut out: Vec<u8> = Vec::new();
        out.push(self.command_type.to_u8());
        push_be16(&mut out, self.data.len() as u16);
        extend_bytes(&mut out, self.data.as_slice());
        out
    }
}

/// Whether a response with this code carries a session id as its first byte.
pub open spec fn carries_session_id(code: ResponseCode) -> bool {
    code == ResponseCode::Success(CommandType::CreateSession) || code == ResponseCode::Success(
        CommandType::AuthSession,
    ) || code == ResponseCode::Success(CommandType::SessionMessage)
}

/// Whether a response with this code ends in a MAC.
pub open spec fn carries_mac(code: ResponseCode) -> bool {
    code == ResponseCode::Success(CommandType::SessionMessage)
}

/// What a response holds: code, session id, data and MAC.
pub type ResponseView = (ResponseCode, Option<u8>, Seq<u8>, Option<Seq<u8>>);

/// The meaning of a response frame's bytes, or why they are malformed.
pub open spec fn parse_response(b: Seq<u8>) -> Result<ResponseView, FramingError> {
    if b.len() < 3 {
        Err(FramingError::TooShort)
    } else if be16_value(b[1], b[2]) != b.len() - 3 {
        Err(FramingError::LengthMismatch)
    } else if forall|c: ResponseCode| response_tag(c) != b[0] {
        Err(FramingError::UnknownCode)
    } else {
        let code = choose|c: ResponseCode| response_tag(c) == b[0];
        let body = b.subrange(3, b.len() as int);
        if !carries_session_id(code) {
            Ok((code, None, body, None))
        } else if body.len() < 1 {
            Err(FramingError::TooShort)
        } else if !carries_mac(code) {
            Ok((code, Some(body[0]), body.subrange(1, body.len() as int), None))
        } else if body.len() < 1 + MAC_SIZE {
            Err(FramingError::TooShort)
        } else {
            Ok(
                (
                    code,
                    Some(body[0]),
                    body.subrange(1, body.len() - MAC_SIZE),
                    Some(body.subrange(body.len() - MAC_SIZE, body.len() as int)),
                ),
            )
        }
    }
}

/// The payload of a response frame: session id, data and MAC, each where present.
pub open spec fn response_body(v: ResponseView) -> Seq<u8> {
    (match v.1 {
        Some(id) => seq![id],
        None => Seq::empty(),
    }) + v.2 + (match v.3 {
        Some(m) => m,
        None => Seq::empty(),
    })
}

/// A response from the device.
pub struct ResponseMessage {
    /// Status of the response.
    pub code: ResponseCode,
    /// Session the response belongs to, for session-bound responses.
    pub session_id: Option<u8>,
    /// Data of the response.
    pub data: Vec<u8>,
    /// Truncated MAC, for encrypted session responses.
    pub mac: Option<[u8; 8]>,
}

impl View for ResponseMessage {
    type V = ResponseView;

    open spec fn view(&self) -> ResponseView {
        (
            self.code,
            self.session_id,
            self.data@,
            match self.mac {
                Some(m) => Some(m@),
                None => None,
            },
        )
    }
}

impl ResponseMessage {
    /// The session id and MAC are present exactly where the code calls for
    /// them, and the frame fits.
    pub open spec fn wf(&self) -> bool {
        &&& (self.session_id is Some <==> carries_session_id(self.code))
        &&& (self.mac is Some <==> carries_mac(self.code))
        &&& response_body(self@).len() <= MAX_PAYLOAD_SIZE
    }

    /// The bytes of this response on the wire.
    pub open spec fn spec_bytes(&self) -> Seq<u8> {
        frame(response_tag(self.code), response_body(self@))
    }

    /// Parse a response frame; fails when it is shorter than its header or
    /// than the parts its code calls for, when the length field disagrees
    /// with the bytes that follow, or when the status byte is unknown.
    pub fn parse(bytes: &[u8]) -> (r: Result<ResponseMessage, FramingError>)
        ensures
            r matches Ok(m) ==> parse_response(bytes@) == Ok::<ResponseView, FramingError>(m@),
            r matches Err(e) ==> parse_response(bytes@) == Err::<ResponseView, FramingError>(e),
    {
        let n = bytes.len();
        if n < 3 {
            return Err(FramingError::TooShort);
        }
        let len = (bytes[1] as usize) * 256 + (bytes[2] as usize);
        if len != n - 3 {
            return Err(FramingError::LengthMismatch);
        }
        let code = match ResponseCode::from_u8(bytes[0]) {
            Some(c) => c,
            None => {
                return Err(FramingError::UnknownCode);
            },
        };
        proof {
            let c = choose|c: ResponseCode| response_tag(c) == bytes@[0];
            lemma_response_tag_injective(c, code);
        }
        let has_id = matches!(code, ResponseCode::Success(CommandType::CreateSession))
            || matches!(code, ResponseCode::Success(CommandType::AuthSession))
            || matches!(code, ResponseCode::Success(CommandType::SessionMessage));
        let has_mac = matches!(code, ResponseCode::Success(CommandType::SessionMessage));
        if !has_id {
            let data = slice_to_vec(bytes, 3, n);
            return Ok(ResponseMessage { code, session_id: None, data, mac: None });
        }
        if n < 4 {
            return Err(FramingError::TooShort);
        }
        let id = bytes[3];
        assert(bytes@.subrange(3, n as int).subrange(1, n - 3) == bytes@.subrange(4, n as int));
        if !has_mac {
            let data = slice_to_vec(bytes, 4, n);
            return Ok(ResponseMessage { code, session_id: Some(id), data, mac: None });
        }
        if n < 4 + MAC_SIZE {
            return Err(FramingError::TooShort);
        }
        assert(bytes@.subrange(3, n as int).subrange(1, n - 3 - MAC_SIZE) == bytes@.subrange(
            4,
            n - MAC_SIZE,
        ));
        let data = slice_to_vec(bytes, 4, n - MAC_SIZE);
        let mut mac = [0u8; 8];
        let mut i: usize = 0;
        while i < MAC_SIZE
            invariant
                n == bytes@.len(),
                n >= 4 + MAC_SIZE,
                i <= MAC_SIZE,
                forall|j: int| 0 <= j < i ==> mac@[j] == bytes@[n - MAC_SIZE + j],
            decreases MAC_SIZE - i,
        {
            mac[i] = bytes[n - MAC_SIZE + i];
            i = i + 1;
        }
        assert(mac@ == bytes@.subrange(3, n as int).subrange(
            n - 3 - MAC_SIZE,
            n - 3,
        ));
        Ok(ResponseMessage { code, session_id: Some(id), data, mac: Some(mac) })
    }

    /// Whether the device reported a failure.
    pub fn is_err(&self) -> (r: bool)
        ensures
            r == !(self.code is Success),
    {
        self.code.is_err()
    }

    /// The command type that a successful response answers; `None` for a
    /// device error, which names no type.
    pub fn command(&self) -> (r: Option<CommandType>)
        ensures
            r == (match self.code {
                ResponseCode::Success(t) => Some(t),
                _ => None,
            }),
    {
        match self.code {
            ResponseCode::Success(t) => Some(t),
            _ => None,
        }
    }

    /// The bytes of this response on the wire.
    pub fn serialize(&self) -> (r: Vec<u8>)
        requires
            self.wf(),
        ensures
            r@ == self.spec_bytes(),
    {
        let mut body: Vec<u8> = Vec::new();
        match self.session_id {
            Some(id) => body.push(id),
            None => {},
        }
        extend_bytes(&mut body, self.data.as_slice());
        match &self.mac {
            Some(m) => extend_bytes(&mut body, m),
            None => {},
        }
        let mut out: Vec<u8> = Vec::new();
        out.push(self.code.to_u8());
        push_be16(&mut out, body.len() as u16);
        extend_bytes(&mut out, body.as_slice());
        out
    }
}

/// Distinct response codes have distinct status bytes.
pub proof fn lemma_response_tag_injective(a: ResponseCode, b: ResponseCode)
    requires
        response_tag(a) == response_tag(b),
    ensures
        a == b,
{
}

/// Copy `bytes[lo..hi]` into a new vector.
pub(crate) fn slice_to_vec(bytes: &[u8], lo: usize, hi: usize) -> (r: Vec<u8>)
    requires
        lo <= hi <= bytes@.len(),
    ensures
        r@ == bytes@.subrange(lo as int, hi as int),
{
    let mut out: Vec<u8> = Vec::new();
    let mut i: usize = lo;
    while i < hi
        invariant
            lo <= i <= hi <= bytes@.len(),
            out@ == bytes@.subrange(lo as int, i as int),
        decreases hi - i,
    {
        out.push(bytes[i]);
        i = i + 1;
        assert(bytes@.subrange(lo as int, i as int) == bytes@.subrange(lo as int, i - 1) + seq![
            bytes@[i - 1],
        ]);
    }
    out
}

/// Parsing the bytes of a well-formed response gives the response back.
pub proof fn lemma_parse_serialize(m: ResponseMessage)
    requires
        m.wf(),
    ensures
        parse_response(m.spec_bytes()) == Ok::<ResponseView, FramingError>(m@),
{
    let b = m.spec_bytes();
    let body = response_body(m@);
    assert(b.subrange(3, b.len() as int) == body);
    assert(b[0] == response_tag(m.code));
    let c = choose|c: ResponseCode| response_tag(c) == b[0];
    lemma_response_tag_injective(c, m.code);
    if carries_session_id(m.code) {
        let rest = body.subrange(1, body.len() as int);
        if carries_mac(m.code) {
            assert(body.subrange(1, body.len() - MAC_SIZE) == m.data@);
            assert(body.subrange(body.len() - MAC_SIZE, body.len() as int) == m@.3.unwrap());
        } else {
            assert(rest == m.data@);
        }
    } else {
        assert(body == m.data@);
    }
}

} // verus!

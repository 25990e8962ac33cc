//! The handshake messages and their encoding on the wire.
//!
//! Messages travel in the `bincode` fixed-width little-endian encoding: a
//! string is its length in bytes as a `u64` followed by its UTF-8 bytes, a
//! struct is its fields one after the other, and an enum is the index of the
//! variant as a `u32` followed by the variant's fields.

use vstd::bytes::{spec_u32_to_le_bytes, spec_u64_from_le_bytes, spec_u64_to_le_bytes};
use vstd::prelude::*;
use vstd::utf8::{decode_utf8, encode_utf8, valid_utf8};

use crate::error::ProtocolError;

verus! {

/// The largest handshake message, in bytes, that is read at all.
pub const HANDSHAKE_BUDGET: usize = 512;

/// What a client sends first on its control connection.
#[derive(Debug, Clone, PartialEq, Eq)]
pub struct ClientRegisterMessage {
    pub name: String,
    pub secret: String,
    pub protocol: String,
}

/// The broker's answer to a registration.
#[derive(Debug, Clone, PartialEq, Eq)]
pub enum RegisterResponse {
    /// The session token, in its textual form.
    Success { uuid: String },
    Failed { reason: String },
}

/// The mathematical content of a [`ClientRegisterMessage`].
pub struct RegisterView {
    pub name: Seq<char>,
    pub secret: Seq<char>,
    pub protocol: Seq<char>,
}

/// The mathematical content of a [`RegisterResponse`].
pub enum ResponseView {
    Success { uuid: Seq<char> },
    Failed { reason: Seq<char> },
}

impl View for ClientRegisterMessage {
    type V = RegisterView;

    open spec fn view(&self) -> RegisterView {
        RegisterView { name: self.name@, secret: self.secret@, protocol: self.protocol@ }
    }
}

impl View for RegisterResponse {
    type V = ResponseView;

    open spec fn view(&self) -> ResponseView {
        match self {
            RegisterResponse::Success { uuid } => ResponseView::Success { uuid: uuid@ },
            RegisterResponse::Failed { reason } => ResponseView::Failed { reason: reason@ },
        }
    }
}

/// The encoding of a string: its byte length, then its UTF-8 bytes.
pub open spec fn text_frame(text: Seq<char>) -> Seq<u8> {
    spec_u64_to_le_bytes(encode_utf8(text).len() as u64) + encode_utf8(text)
}

/// The encoding of a variant index followed by one string.
pub open spec fn tagged_frame(tag: u32, text: Seq<char>) -> Seq<u8> {
    spec_u32_to_le_bytes(tag) + text_frame(text)
}

/// The encoding of a response: `Success` is variant 0, `Failed` is variant 1.
pub open spec fn response_frame(response: ResponseView) -> Seq<u8> {
    match response {
        ResponseView::Success { uuid } => tagged_frame(0, uuid),
        ResponseView::Failed { reason } => tagged_frame(1, reason),
    }
}

/// The string that `bytes` starts with, and the number of bytes it takes up.
/// There is none when the length prefix is cut short, when it announces more
/// bytes than follow, or when the announced bytes are not UTF-8.
pub open spec fn leading_text(bytes: Seq<u8>) -> Option<(Seq<char>, int)> {
    if bytes.len() < 8 {
        None
    } else {
        let n = spec_u64_from_le_bytes(bytes.subrange(0, 8)) as int;
        if n > bytes.len() - 8 || !valid_utf8(bytes.subrange(8, 8 + n)) {
            None
        } else {
            Some((decode_utf8(bytes.subrange(8, 8 + n)), 8 + n))
        }
    }
}

/// The single string that `bytes` decodes to; bytes after it are ignored.
pub open spec fn decoded_text(bytes: Seq<u8>) -> Option<Seq<char>> {
    match leading_text(bytes) {
        Some((text, _)) => Some(text),
        None => None,
    }
}

/// The registration that `bytes` decodes to: three strings in a row, bytes
/// after them ignored.
pub open spec fn decoded_register(bytes: Seq<u8>) -> Option<RegisterView> {
    match leading_text(bytes) {
        None => None,
        Some((name, used_1)) => match leading_text(bytes.skip(used_1)) {
            None => None,
            Some((secret, used_2)) => match leading_text(bytes.skip(used_1 + used_2)) {
                None => None,
                Some((protocol, _)) => Some(RegisterView { name, secret, protocol }),
            },
        },
    }
}

/// Encodes one string with `bincode::serialize`.
///
/// Claims that the call cannot fail on a string and that the bytes are the
/// length as a little-endian `u64` followed by the string's UTF-8 bytes.
#[verifier::external_body]
fn encode_text(text: &str) -> (bytes: Vec<u8>)
    ensures
        bytes@ == text_frame(text@),
{
    match bincode::serialize(text) {
        Ok(bytes) => bytes,
        Err(_) => Vec::new(),
    }
}

/// Encodes a variant index and one string, as a pair, with `bincode::serialize`.
///
/// Claims that the call cannot fail on such a pair and that the bytes are the
/// index as a little-endian `u32` followed by the encoding of the string.
#[verifier::external_body]
fn encode_tagged_text(tag: u32, text: &str) -> (bytes: Vec<u8>)
    ensures
        bytes@ == tagged_frame(tag, text@),
{
    match bincode::serialize(&(tag, text)) {
        Ok(bytes) => bytes,
        Err(_) => Vec::new(),
    }
}

/// Decodes one string with `bincode::deserialize`.
///
/// Claims that the call succeeds exactly when the bytes start with a
/// well-formed string, and then returns that string.
#[verifier::external_body]
fn decode_text(bytes: &[u8]) -> (text: Option<String>)
    ensures
        match text {
            Some(t) => decoded_text(bytes@) == Some(t@),
            None => decoded_text(bytes@).is_none(),
        },
{
    match bincode::deserialize::<String>(bytes) {
        Ok(text) => Some(text),
        Err(_) => None,
    }
}

/// Decodes three strings in a row, as a triple, with `bincode::deserialize`.
///
/// Claims that the call succeeds exactly when the bytes start with three
/// well-formed strings, and then returns them in order.
#[verifier::external_body]
fn decode_text_triple(bytes: &[u8]) -> (fields: Option<(String, String, String)>)
    ensures
        match fields {
            Some(f) => decoded_register(bytes@) == Some(
                RegisterView { name: f.0@, secret: f.1@, protocol: f.2@ },
            ),
            None => decoded_register(bytes@).is_none(),
        },
{
    match bincode::deserialize::<(String, String, String)>(bytes) {
        Ok(fields) => Some(fields),
        Err(_) => None,
    }
}

/// What reading a registration from `bytes` comes to.
pub open spec fn register_outcome(bytes: Seq<u8>) -> Result<RegisterView, ProtocolError> {
    if bytes.len() > HANDSHAKE_BUDGET {
        Err(ProtocolError::Oversized)
    } else {
        match decoded_register(bytes) {
            Some(message) => Ok(message),
            None => Err(ProtocolError::Malformed),
        }
    }
}

/// What reading a tunnel claim from `bytes` comes to.
pub open spec fn claim_outcome(bytes: Seq<u8>) -> Result<Seq<char>, ProtocolError> {
    if bytes.len() > HANDSHAKE_BUDGET {
        Err(ProtocolError::Oversized)
    } else {
        match decoded_text(bytes) {
            Some(text) => Ok(text),
            None => Err(ProtocolError::Malformed),
        }
    }
}

/// Reads a registration message. A message over the handshake budget is
/// refused unread; one within it must decode as three strings.
pub fn decode_register_message(bytes: &[u8]) -> (r: Result<ClientRegisterMessage, ProtocolError>)
    ensures
        match r {
            Ok(message) => register_outcome(bytes@) == Ok::<RegisterView, ProtocolError>(message@),
            Err(e) => register_outcome(bytes@) == Err::<RegisterView, ProtocolError>(e),
        },
{
    if bytes.len() > HANDSHAKE_BUDGET {
        return Err(ProtocolError::Oversized);
    }
    match decode_text_triple(bytes) {
        Some((name, secret, protocol)) => Ok(ClientRegisterMessage { name, secret, protocol }),
        None => Err(ProtocolError::Malformed),
    }
}

/// Reads a tunnel claim: one string within the handshake budget.
pub fn decode_claim(bytes: &[u8]) -> (r: Result<String, ProtocolError>)
    ensures
        match r {
            Ok(text) => claim_outcome(bytes@) == Ok::<Seq<char>, ProtocolError>(text@),
            Err(e) => claim_outcome(bytes@) == Err::<Seq<char>, ProtocolError>(e),
        },
{
    if bytes.len() > HANDSHAKE_BUDGET {
        return Err(ProtocolError::Oversized);
    }
    match decode_text(bytes) {
        Some(text) => Ok(text),
        None => Err(ProtocolError::Malformed),
    }
}

/// Writes a response to a registration.
pub fn encode_response(response: &RegisterResponse) -> (bytes: Vec<u8>)
    ensures
        bytes@ == response_frame(response@),
{
    match response {
        RegisterResponse::Success { uuid } => encode_tagged_text(0, uuid.as_str()),
        RegisterResponse::Failed { reason } => encode_tagged_text(1, reason.as_str()),
    }
}

/// The acknowledgement of an accepted tunnel claim: the string `OK`.
pub fn ack_frame() -> (bytes: Vec<u8>)
    ensures
        bytes@ == text_frame("OK"@),
{
    encode_text("OK")
}

} // verus!

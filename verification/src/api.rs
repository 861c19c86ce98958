//! The message shapes exchanged with the chat server. The host
//! serializes them (the wire names differ from the field names: the
//! server speaks camelCase, and a message's kind travels in a `type`
//! tag beside the payload).

use vstd::prelude::*;
use crate::crypto::{decrypt, hex_decoded, is_hex_str, aes256_gcm_ciphertext, AesKey};
use vstd::utf8::valid_utf8;

verus! {

/// Sent to enter a room.
pub struct JoinRoomPayload<'a> {
    pub room_id: &'a str,
}

/// Sent to deliver an encrypted message to a room.
pub struct SendMessagePayload<'a> {
    pub room_id: &'a str,
    /// The encrypted message content, hex-encoded.
    pub ciphertext: &'a str,
}

/// The envelope of every client-to-server message: a kind tag and the
/// payload it applies to.
pub struct ClientMessage<'a, T> {
    pub typ: &'a str,
    pub payload: T,
}

/// A received room message.
#[derive(Debug)]
pub struct MessagePayload {
    /// The encrypted message content, hex-encoded.
    pub ciphertext: String,
}

/// A received informational or error text.
#[derive(Debug)]
pub struct SimpleMessagePayload {
    pub message: String,
}

/// Every message the server sends.
#[derive(Debug)]
pub enum ServerMessage {
    Message(MessagePayload),
    Info(SimpleMessagePayload),
    Error(SimpleMessagePayload),
}

/// What the host does to its screen state for one server message.
#[derive(Debug, PartialEq)]
pub enum ServerMessageEffect {
    /// Append this line to the message log.
    Append(String),
    /// Show this in the status bar.
    Status(String),
    /// Do nothing (an encrypted message arrived before a room key is
    /// set).
    Nothing,
}

/// Decide what one server message does to the display: room messages
/// are decrypted with the room key (a failure shows a marker line, an
/// absent key drops the message), server info is logged with a
/// `[SERVER]` tag, and server errors go to the status bar.
pub fn handle_server_message(key: Option<&AesKey>, msg: ServerMessage) -> (r: ServerMessageEffect)
    requires
        (key matches Some(k) ==> k.wf()),
    ensures
        (msg matches ServerMessage::Info(p) ==> r matches ServerMessageEffect::Append(s) && s@
            == "[SERVER] "@ + p.message@),
        (msg matches ServerMessage::Error(p) ==> r matches ServerMessageEffect::Status(s) && s@
            == "[ERROR] "@ + p.message@),
        (msg is Message && key is None ==> r == ServerMessageEffect::Nothing),
        (msg matches ServerMessage::Message(p) ==> (key matches Some(k) ==> (
        if is_hex_str(p.ciphertext@) && hex_decoded(p.ciphertext@).len() >= 12 && (
        exists|pt: Seq<u8>|
            valid_utf8(pt) && hex_decoded(p.ciphertext@).skip(12) == aes256_gcm_ciphertext(
                k@,
                hex_decoded(p.ciphertext@).take(12),
                pt,
            )) {
            r matches ServerMessageEffect::Append(s) && hex_decoded(p.ciphertext@).skip(12)
                == aes256_gcm_ciphertext(
                k@,
                hex_decoded(p.ciphertext@).take(12),
                vstd::utf8::encode_utf8(s@),
            )
        } else {
            r matches ServerMessageEffect::Append(s) && s@
                == "[DECRYPTION_ERROR] Received invalid message"@
        }))),
{
    match msg {
        ServerMessage::Message(payload) => {
            match key {
                Some(k) => {
                    match decrypt(k, payload.ciphertext.as_str()) {
                        Ok(plaintext) => ServerMessageEffect::Append(plaintext),
                        Err(_) => ServerMessageEffect::Append(
                            "[DECRYPTION_ERROR] Received invalid message".to_owned(),
                        ),
                    }
                },
                None => ServerMessageEffect::Nothing,
            }
        },
        ServerMessage::Info(payload) => ServerMessageEffect::Append(
            vstd::string::StringExecFns::concat("[SERVER] ".to_owned(), payload.message.as_str()),
        ),
        ServerMessage::Error(payload) => ServerMessageEffect::Status(
            vstd::string::StringExecFns::concat("[ERROR] ".to_owned(), payload.message.as_str()),
        ),
    }
}

} // verus!

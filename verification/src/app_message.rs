use vstd::prelude::*;
use crate::errors::MeshError;
use crate::frame::{decode_frame, encode_frame, frame_text, lemma_frame_text_injective};
use vstd::string::StringExecFns;

verus! {

/// The only structure visible to the application layer: a payload text and a
/// timestamp, always carried as plaintext inside a wire message's ciphertext.
pub struct ApplicationMessage {
    pub payload: String,
    pub timestamp: u64,
}

/// The mathematical value of an application message.
pub ghost struct ApplicationMessageV {
    pub payload: Seq<char>,
    pub timestamp: u64,
}

impl View for ApplicationMessage {
    type V = ApplicationMessageV;

    open spec fn view(&self) -> ApplicationMessageV {
        ApplicationMessageV { payload: self.payload@, timestamp: self.timestamp }
    }
}

impl Clone for ApplicationMessage {
    fn clone(&self) -> (r: Self)
        ensures
            r@ == self@,
    {
        ApplicationMessage { payload: self.payload.clone(), timestamp: self.timestamp }
    }
}

impl ApplicationMessage {
    /// Writes the message as the plaintext frame that gets encrypted.
    pub fn to_frame(&self) -> (r: String)
        ensures
            r@ == frame_text(self@.timestamp, self@.payload),
    {
        encode_frame(self.timestamp, self.payload.as_str())
    }

    /// Reads a decrypted plaintext frame back into a message; a text that is
    /// no frame (such as the empty handshake plaintext) is rejected.
    pub fn from_frame(s: &str) -> (r: Option<ApplicationMessage>)
        ensures
            r matches Some(m) ==> s@ == frame_text(m@.timestamp, m@.payload),
            forall|ts: u64, payload: Seq<char>|
                s@ == frame_text(ts, payload) ==> (r matches Some(m) && m@.timestamp == ts
                    && m@.payload == payload),
    {
        match decode_frame(s) {
            Some((ts, payload)) => Some(ApplicationMessage { payload, timestamp: ts }),
            None => None,
        }
    }
}

/// The message a decrypted plaintext carries, if it carries one: frames
/// determine their message (they are injective), so this is a function of the
/// plaintext alone.
pub open spec fn spec_received_message(pt: Seq<char>) -> Option<ApplicationMessageV> {
    if exists|ts: u64, payload: Seq<char>| pt == frame_text(ts, payload) {
        let (ts, payload) = choose|ts: u64, payload: Seq<char>| pt == frame_text(ts, payload);
        Some(ApplicationMessageV { payload, timestamp: ts })
    } else {
        None
    }
}

/// Turns the plaintext decrypted over an established session into the message
/// it carries: exactly the message of a plaintext that is a frame, and a
/// serialization failure for any other plaintext.
pub fn decode_received_message(plaintext: &str) -> (r: Result<ApplicationMessage, MeshError>)
    ensures
        spec_received_message(plaintext@) matches Some(mv) ==> (r matches Ok(m) && m@ == mv),
        spec_received_message(plaintext@) is None ==> (r matches Err(e) && e matches
            MeshError::Serialization),
{
    match ApplicationMessage::from_frame(plaintext) {
        Some(m) => {
            proof {
                if spec_received_message(plaintext@) matches Some(mv) {
                    let (ts, payload) = choose|ts: u64, payload: Seq<char>|
                        plaintext@ == frame_text(ts, payload);
                    lemma_frame_text_injective(m@.timestamp, m@.payload, ts, payload);
                }
            }
            Ok(m)
        },
        None => Err(MeshError::Serialization),
    }
}

/// The placeholder payload returned on first contact, when the handshake
/// carried no readable application message.
pub fn null_payload() -> (r: String)
    ensures
        r@ == "null"@,
{
    let mut r = String::new();
    r.append("null");
    r
}

/// Turns the plaintext of a first-contact handshake into a message the caller
/// can always use: the plaintext's own message when it carries one, and
/// otherwise a placeholder with a null payload and the given fallback time.
pub fn recover_first_contact_message(plaintext: &str, fallback_timestamp: u64) -> (m:
    ApplicationMessage)
    ensures
        spec_received_message(plaintext@) matches Some(mv) ==> m@ == mv,
        spec_received_message(plaintext@) is None ==> m@.payload == "null"@ && m@.timestamp
            == fallback_timestamp,
{
    match decode_received_message(plaintext) {
        Ok(m) => m,
        Err(_e) => ApplicationMessage { payload: null_payload(), timestamp: fallback_timestamp },
    }
}

} // verus!

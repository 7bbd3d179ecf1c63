use vstd::prelude::*;

verus! {

/// The only structure that crosses the transport boundary: an opaque
/// engine-encoded ciphertext and the sender's device id.
pub struct WireMessage {
    pub ciphertext: vodozemac::olm::OlmMessage,
    pub sender_device_id: u128,
}

} // verus!

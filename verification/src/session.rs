use vstd::prelude::*;
use crate::engine::{
    create_inbound, create_outbound, encrypt_message, fresh_device_id, now_millis, parse_key,
    pickle_session, unpickle_session,
};
use crate::errors::MeshError;

verus! {

/// The local device's view of a secure channel to exactly one remote device:
/// the pair of endpoint ids and the engine's serialized ratchet state. The
/// ratchet advances irreversibly on every encrypt and decrypt, so the record
/// must be re-persisted after each successful one.
pub struct Session {
    pub id: u128,
    pub local_device_id: u128,
    pub remote_device_id: u128,
    pub pickled_session: String,
    pub created_at: u64,
}

/// The mathematical value of a session record.
pub ghost struct SessionV {
    pub id: u128,
    pub local_device_id: u128,
    pub remote_device_id: u128,
    pub pickled_session: Seq<char>,
    pub created_at: u64,
}

impl View for Session {
    type V = SessionV;

    open spec fn view(&self) -> SessionV {
        SessionV {
            id: self.id,
            local_device_id: self.local_device_id,
            remote_device_id: self.remote_device_id,
            pickled_session: self.pickled_session@,
            created_at: self.created_at,
        }
    }
}

impl Clone for Session {
    fn clone(&self) -> (r: Self)
        ensures
            r@ == self@,
    {
        Session {
            id: self.id,
            local_device_id: self.local_device_id,
            remote_device_id: self.remote_device_id,
            pickled_session: self.pickled_session.clone(),
            created_at: self.created_at,
        }
    }
}

impl Session {
    /// Wraps a live engine session into a stored record for the given pair,
    /// under a fresh id and the current time.
    pub fn new(
        local_device_id: u128,
        remote_device_id: u128,
        olm_session: &vodozemac::olm::Session,
    ) -> (r: Result<Session, MeshError>)
        ensures
            r matches Ok(s) ==> s@.local_device_id == local_device_id && s@.remote_device_id
                == remote_device_id,
            r matches Err(e) ==> e matches MeshError::Serialization,
    {
        let pickled = match pickle_session(olm_session) {
            Ok(p) => p,
            Err(e) => {
                return Err(e);
            },
        };
        Ok(
            Session {
                id: fresh_device_id(),
                local_device_id,
                remote_device_id,
                pickled_session: pickled,
                created_at: now_millis(),
            },
        )
    }

    /// The initiator's half of the key exchange: asks the engine for an
    /// outbound session against the remote's public keys and encrypts the
    /// first, payload-free handshake message.
    pub fn new_outbound(
        local_device_id: u128,
        remote_device_id: u128,
        account: &vodozemac::olm::Account,
        remote_identity_key: &str,
        remote_one_time_key: &str,
    ) -> (r: Result<(Session, vodozemac::olm::OlmMessage), MeshError>)
        ensures
            r matches Ok(p) ==> p.0@.local_device_id == local_device_id
                && p.0@.remote_device_id == remote_device_id,
            r matches Err(e) ==> (e matches MeshError::Serialization || e matches
                MeshError::Cryptography),
    {
        let identity_key = match parse_key(remote_identity_key) {
            Ok(k) => k,
            Err(e) => {
                return Err(e);
            },
        };
        let one_time_key = match parse_key(remote_one_time_key) {
            Ok(k) => k,
            Err(e) => {
                return Err(e);
            },
        };
        let mut olm_session = match create_outbound(account, &identity_key, &one_time_key) {
            Ok(s) => s,
            Err(e) => {
                return Err(e);
            },
        };
        let first_message = match encrypt_message(&mut olm_session, "") {
            Ok(m) => m,
            Err(e) => {
                return Err(e);
            },
        };
        let session = match Session::new(local_device_id, remote_device_id, &olm_session) {
            Ok(s) => s,
            Err(e) => {
                return Err(e);
            },
        };
        Ok((session, first_message))
    }

    /// The responder's half of the key exchange: asks the engine for an
    /// inbound session from a received handshake message, consuming one of
    /// the account's one-time keys, and returns the handshake's plaintext.
    pub fn new_inbound(
        local_device_id: u128,
        remote_device_id: u128,
        account: &mut vodozemac::olm::Account,
        one_time_key_message: &vodozemac::olm::OlmMessage,
    ) -> (r: Result<(Session, String), MeshError>)
        ensures
            r matches Ok(p) ==> p.0@.local_device_id == local_device_id
                && p.0@.remote_device_id == remote_device_id,
            r matches Err(e) ==> (e matches MeshError::Serialization || e matches
                MeshError::Cryptography),
    {
        let (olm_session, plaintext) = match create_inbound(account, one_time_key_message) {
            Ok(p) => p,
            Err(e) => {
                return Err(e);
            },
        };
        let session = match Session::new(local_device_id, remote_device_id, &olm_session) {
            Ok(s) => s,
            Err(e) => {
                return Err(e);
            },
        };
        Ok((session, plaintext))
    }

    /// Restores the engine's live session object from this record's
    /// serialized ratchet state. It fails only on ratchet state the engine
    /// cannot read back.
    pub fn olm_session(&self) -> (r: Result<vodozemac::olm::Session, MeshError>)
        ensures
            r matches Err(e) ==> e matches MeshError::Serialization,
    {
        unpickle_session(self.pickled_session.as_str())
    }
}

} // verus!

use vstd::prelude::*;
use crate::app_message::{
    decode_received_message, recover_first_contact_message, spec_received_message,
    ApplicationMessage,
};
use crate::device::Device;
use crate::engine::{
    encrypt_message, generate_one_time_keys, identity_key_b64, one_time_keys_b64, pickle_account,
    pickle_session,
};
use crate::errors::MeshError;
use crate::invitation::{encode_invitation, parse_invitation, quote_free, wf_invitation_text};
use crate::session::Session;
use crate::spec_canonical_pair;
use crate::store::MeshStore;
use crate::wire::WireMessage;
use vstd::string::StringExecFns;

verus! {

/// The number of one-time prekeys generated when a device is provisioned.
pub const ONE_TIME_KEY_BATCH: usize = 10;

/// Picks the one-time key that an invitation will carry out of the batch the
/// engine handed out: the first of the batch, and a cryptography failure when
/// the engine handed out none.
pub fn select_one_time_key(keys: &Vec<String>) -> (r: Result<String, MeshError>)
    ensures
        keys@.len() == 0 ==> (r matches Err(e) && e matches MeshError::Cryptography),
        keys@.len() > 0 ==> (r matches Ok(k) && k@ == keys@[0]@),
{
    if keys.len() == 0 {
        Err(MeshError::Cryptography)
    } else {
        Ok(keys[0].clone())
    }
}

/// Creates a device with a fresh identity, equips it with a batch of one-time
/// prekeys, persists it, and returns it together with an invitation that a
/// peer can finalize against it.
pub struct ProvisionNewDevice {}

impl ProvisionNewDevice {
    pub fn new() -> ProvisionNewDevice {
        ProvisionNewDevice {}
    }

    /// On success the returned device carries the requested name and stands
    /// in the store, no other record moves, and the returned text is the
    /// well-formed invitation for the new device's id built from key material
    /// the engine handed out (the key chosen by `select_one_time_key`), so a
    /// peer's validation reads it back. On failure nothing is persisted.
    pub fn execute(&self, store: &mut MeshStore, name: String) -> (r: Result<
        (Device, String),
        MeshError,
    >)
        ensures
            r matches Ok(p) ==> {
                &&& p.0@.name == name@
                &&& final(store).spec_device(p.0@.id) == Some(p.0@)
                &&& forall|x: u128|
                    x != p.0@.id ==> final(store).spec_device(x) == old(store).spec_device(x)
                &&& forall|k: (u128, u128)|
                    final(store).spec_session_at(k) == old(store).spec_session_at(k)
                &&& (exists|ik: Seq<char>, otk: Seq<char>|
                    wf_invitation_text(p.1@, p.0@.id, ik, otk))
            },
            r is Err ==> *final(store) == *old(store),
    {
        let mut device = match Device::new(name) {
            Ok(d) => d,
            Err(e) => {
                return Err(e);
            },
        };
        let mut account = match device.account() {
            Ok(a) => a,
            Err(e) => {
                return Err(e);
            },
        };
        generate_one_time_keys(&mut account, ONE_TIME_KEY_BATCH);
        let new_pickle = match pickle_account(&account) {
            Ok(p) => p,
            Err(e) => {
                return Err(e);
            },
        };
        device.pickled_account = new_pickle;
        let identity_key = identity_key_b64(&account);
        let one_time_keys = one_time_keys_b64(&account);
        let one_time_key = match select_one_time_key(&one_time_keys) {
            Ok(k) => k,
            Err(e) => {
                return Err(e);
            },
        };
        proof {
            assert(quote_free(one_time_keys@[0]@));
            assert(quote_free(one_time_key@));
        }
        let invitation = encode_invitation(
            device.id,
            identity_key.as_str(),
            one_time_key.as_str(),
        );
        let returned = device.clone();
        store.save_device(device);
        let result = (returned, invitation);
        proof {
            assert(wf_invitation_text(result.1@, result.0@.id, identity_key@, one_time_key@));
            assert(exists|ik: Seq<char>, otk: Seq<char>|
                wf_invitation_text(result.1@, result.0@.id, ik, otk));
        }
        Ok(result)
    }
}

/// Consumes an invitation: validates it, asks the engine for an outbound
/// session against the remote's keys, persists the session, and hands back
/// the first handshake message for delivery to the remote device.
pub struct FinalizeProvisioning {
    pub local_device_id: u128,
}

impl FinalizeProvisioning {
    pub fn new(local_device_id: u128) -> (r: FinalizeProvisioning)
        ensures
            r.local_device_id == local_device_id,
    {
        FinalizeProvisioning { local_device_id }
    }

    /// An invitation from which no (id, key, key) triple can be read fails
    /// validation and persists nothing; a missing local device is named; on
    /// success exactly one session record appears, stored for the pair of
    /// the local device and the invitation's id, and the returned wire
    /// message is addressed from the local device to that remote id.
    pub fn execute(&self, store: &mut MeshStore, invitation: &str) -> (r: Result<
        (u128, WireMessage),
        MeshError,
    >)
        ensures
            (forall|id: u128, ik: Seq<char>, otk: Seq<char>|
                !wf_invitation_text(invitation@, id, ik, otk)) ==> (r matches Err(e) && e matches
                MeshError::Serialization),
            forall|id: u128, ik: Seq<char>, otk: Seq<char>|
                wf_invitation_text(invitation@, id, ik, otk) && old(store).spec_device(
                    self.local_device_id,
                ) is None ==> (r matches Err(e) && e matches MeshError::DeviceNotFound(d) && d
                    == self.local_device_id),
            r is Err ==> *final(store) == *old(store),
            r matches Err(e) ==> (e matches MeshError::DeviceNotFound(d) ==> ((exists|
                id: u128,
                ik: Seq<char>,
                otk: Seq<char>,
            | wf_invitation_text(invitation@, id, ik, otk)) && old(store).spec_device(
                self.local_device_id,
            ) is None && d == self.local_device_id)),
            r matches Ok(p) ==> {
                &&& (exists|ik: Seq<char>, otk: Seq<char>|
                    wf_invitation_text(invitation@, p.0, ik, otk))
                &&& (final(store).spec_session(self.local_device_id, p.0) matches Some(sv)
                    && sv.local_device_id == self.local_device_id && sv.remote_device_id == p.0)
                &&& forall|k: (u128, u128)|
                    k != spec_canonical_pair(self.local_device_id, p.0) ==> final(store).spec_session_at(k) == old(store).spec_session_at(k)
                &&& forall|x: u128| final(store).spec_device(x) == old(store).spec_device(x)
                &&& p.1.sender_device_id == self.local_device_id
            },
    {
        let inv = match parse_invitation(invitation) {
            Some(i) => i,
            None => {
                return Err(MeshError::Serialization);
            },
        };
        let remote_device_id = inv.device_id;
        let local_device = match store.load_device(self.local_device_id) {
            Ok(d) => d,
            Err(e) => {
                return Err(e);
            },
        };
        let local_account = match local_device.account() {
            Ok(a) => a,
            Err(e) => {
                return Err(e);
            },
        };
        let (session, first_message) = match Session::new_outbound(
            self.local_device_id,
            remote_device_id,
            &local_account,
            inv.identity_key.as_str(),
            inv.one_time_key.as_str(),
        ) {
            Ok(p) => p,
            Err(e) => {
                return Err(e);
            },
        };
        store.save_session(session);
        Ok(
            (
                remote_device_id,
                WireMessage { ciphertext: first_message, sender_device_id: self.local_device_id },
            ),
        )
    }
}

/// Encrypts one application message for a recipient over the pair's existing
/// session, persists the advanced ratchet state, and hands back the envelope
/// for delivery. Sending never bootstraps a session.
pub struct SendMessage {
    pub local_device_id: u128,
}

impl SendMessage {
    pub fn new(local_device_id: u128) -> (r: SendMessage)
        ensures
            r.local_device_id == local_device_id,
    {
        SendMessage { local_device_id }
    }

    /// A pair with no stored session fails with the pair's missing-session
    /// error and persists nothing, so nothing reaches the transport. On
    /// success the pair's record is re-persisted with the advanced ratchet
    /// state under its old identity, no other record moves, and the envelope
    /// is addressed from the local device.
    pub fn execute(
        &self,
        store: &mut MeshStore,
        recipient_device_id: u128,
        message: &ApplicationMessage,
    ) -> (r: Result<WireMessage, MeshError>)
        ensures
            old(store).spec_session(self.local_device_id, recipient_device_id) is None ==> (
            r matches Err(e) && e matches MeshError::SessionNotFound(a, b) && a
                == self.local_device_id && b == recipient_device_id),
            r matches Err(e) ==> (e matches MeshError::SessionNotFound(a, b) ==> (old(
                store,
            ).spec_session(self.local_device_id, recipient_device_id) is None && a
                == self.local_device_id && b == recipient_device_id)),
            r is Err ==> *final(store) == *old(store),
            r matches Ok(w) ==> {
                &&& w.sender_device_id == self.local_device_id
                &&& (old(store).spec_session(self.local_device_id, recipient_device_id) matches
                    Some(before) && final(store).spec_session(
                        self.local_device_id,
                        recipient_device_id,
                    ) matches Some(after) && after.id == before.id && after.local_device_id
                    == before.local_device_id && after.remote_device_id
                    == before.remote_device_id && after.created_at == before.created_at
                    && after.pickled_session != before.pickled_session)
                &&& forall|k: (u128, u128)|
                    k != spec_canonical_pair(self.local_device_id, recipient_device_id) ==> final(store).spec_session_at(k) == old(store).spec_session_at(k)
                &&& forall|x: u128| final(store).spec_device(x) == old(store).spec_device(x)
            },
    {
        let mut session = match store.load_session(self.local_device_id, recipient_device_id) {
            Ok(s) => s,
            Err(e) => {
                return Err(e);
            },
        };
        let mut olm_session = match session.olm_session() {
            Ok(s) => s,
            Err(e) => {
                return Err(e);
            },
        };
        let plaintext = message.to_frame();
        let encrypted = match encrypt_message(&mut olm_session, plaintext.as_str()) {
            Ok(m) => m,
            Err(e) => {
                return Err(e);
            },
        };
        let new_pickle = match pickle_session(&olm_session) {
            Ok(p) => p,
            Err(e) => {
                return Err(e);
            },
        };
        if new_pickle == session.pickled_session {
            return Err(MeshError::Cryptography);
        }
        session.pickled_session = new_pickle;
        proof {
            store.lemma_session_key_of(self.local_device_id, recipient_device_id);
        }
        store.save_session(session);
        Ok(WireMessage { ciphertext: encrypted, sender_device_id: self.local_device_id })
    }
}

/// Turns a received envelope back into an application message. A stored
/// session for the sender decrypts it; an unknown sender's envelope is
/// treated as a handshake that establishes the pair's session first.
pub struct HandleIncomingMessage {
    pub local_device_id: u128,
}

impl HandleIncomingMessage {
    pub fn new(local_device_id: u128) -> (r: HandleIncomingMessage)
        ensures
            r.local_device_id == local_device_id,
    {
        HandleIncomingMessage { local_device_id }
    }

    /// With a stored session: a decryption failure changes nothing; on
    /// success the pair's record is re-persisted under its old identity
    /// before the plaintext is even read, and no other record moves. Without
    /// one: a missing local device is named and nothing changes; on success
    /// exactly one session record appears for (local, sender), the local
    /// device is re-persisted under its id (the handshake consumed a one-time
    /// key), and a message is returned even when the handshake carried no
    /// readable payload.
    pub fn execute(&self, store: &mut MeshStore, message: WireMessage) -> (r: Result<
        ApplicationMessage,
        MeshError,
    >)
        ensures
            ({
                let had = old(store).spec_session(self.local_device_id, message.sender_device_id);
                &&& had is Some ==> (forall|x: u128|
                    final(store).spec_device(x) == old(store).spec_device(x))
                &&& had is Some ==> (forall|k: (u128, u128)|
                    k != spec_canonical_pair(self.local_device_id, message.sender_device_id)
                        ==> final(store).spec_session_at(k) == old(store).spec_session_at(k))
                &&& had is Some ==> ((r matches Err(e) && e matches MeshError::Cryptography)
                    ==> *final(store) == *old(store))
                &&& had matches Some(before) ==> (r is Ok ==> (final(store).spec_session(
                    self.local_device_id,
                    message.sender_device_id,
                ) matches Some(after) && after.id == before.id && after.local_device_id
                    == before.local_device_id && after.remote_device_id
                    == before.remote_device_id && after.created_at == before.created_at
                    && after.pickled_session != before.pickled_session))
                &&& (had is None && old(store).spec_device(self.local_device_id) is None) ==> (
                r matches Err(e) && e matches MeshError::DeviceNotFound(d) && d
                    == self.local_device_id && *final(store) == *old(store))
                &&& r matches Err(e) ==> (e matches MeshError::DeviceNotFound(d) ==> (had is None
                    && old(store).spec_device(self.local_device_id) is None && d
                    == self.local_device_id))
                &&& (had is None && r is Err) ==> *final(store) == *old(store)
                &&& had is None ==> (r matches Ok(m) ==> (m@.payload == "null"@ || (exists|
                    pt: Seq<char>,
                | spec_received_message(pt) == Some(m@))))
                &&& (had is None && r is Ok) ==> {
                    &&& (final(store).spec_session(
                        self.local_device_id,
                        message.sender_device_id,
                    ) matches Some(sv) && sv.local_device_id == self.local_device_id
                        && sv.remote_device_id == message.sender_device_id)
                    &&& (forall|k: (u128, u128)|
                        k != spec_canonical_pair(self.local_device_id, message.sender_device_id)
                            ==> final(store).spec_session_at(k) == old(store).spec_session_at(k))
                    &&& (final(store).spec_device(self.local_device_id) matches Some(dv)
                        && old(store).spec_device(self.local_device_id) matches Some(odv)
                        && dv.id == self.local_device_id && dv.name == odv.name)
                    &&& (forall|x: u128|
                        x != self.local_device_id ==> final(store).spec_device(x) == old(
                            store,
                        ).spec_device(x))
                }
            }),
    {
        let sender_id = message.sender_device_id;
        let lookup = store.load_session(self.local_device_id, sender_id);
        match lookup {
            Ok(mut session) => {
                let mut olm_session = match session.olm_session() {
                    Ok(s) => s,
                    Err(e) => {
                        return Err(e);
                    },
                };
                let decrypted = match crate::engine::decrypt_message(
                    &mut olm_session,
                    &message.ciphertext,
                ) {
                    Ok(p) => p,
                    Err(e) => {
                        return Err(e);
                    },
                };
                let new_pickle = match pickle_session(&olm_session) {
                    Ok(p) => p,
                    Err(e) => {
                        return Err(e);
                    },
                };
                if new_pickle == session.pickled_session {
                    return Err(MeshError::Cryptography);
                }
                session.pickled_session = new_pickle;
                proof {
                    store.lemma_session_key_of(self.local_device_id, sender_id);
                }
                store.save_session(session);
                decode_received_message(decrypted.as_str())
            },
            Err(MeshError::SessionNotFound(_, _)) => {
                let mut local_device = match store.load_device(self.local_device_id) {
                    Ok(d) => d,
                    Err(e) => {
                        return Err(e);
                    },
                };
                let mut local_account = match local_device.account() {
                    Ok(a) => a,
                    Err(e) => {
                        return Err(e);
                    },
                };
                let (session, plaintext) = match Session::new_inbound(
                    self.local_device_id,
                    sender_id,
                    &mut local_account,
                    &message.ciphertext,
                ) {
                    Ok(p) => p,
                    Err(e) => {
                        return Err(e);
                    },
                };
                let new_pickle = match pickle_account(&local_account) {
                    Ok(p) => p,
                    Err(e) => {
                        return Err(e);
                    },
                };
                local_device.pickled_account = new_pickle;
                proof {
                    store.lemma_device_id_of(self.local_device_id);
                }
                store.save_device(local_device);
                store.save_session(session);
                let app_message = recover_first_contact_message(
                    plaintext.as_str(),
                    crate::engine::now_millis(),
                );
                proof {
                    if spec_received_message(plaintext@) matches Some(mv) {
                        assert(spec_received_message(plaintext@) == Some(app_message@));
                    }
                }
                Ok(app_message)
            },
            Err(e) => Err(e),
        }
    }
}

/// Removes a device and every session that references it as either endpoint.
/// This is local-only cleanup: no peer is notified.
pub struct RevokeDevice {}

impl RevokeDevice {
    pub fn new() -> RevokeDevice {
        RevokeDevice {}
    }

    /// Afterwards the device is gone and so is every session record touching
    /// it, while every other record stands untouched.
    pub fn execute(&self, store: &mut MeshStore, device_id_to_revoke: u128) -> (r: Result<
        (),
        MeshError,
    >)
        ensures
            r is Ok,
            final(store).spec_device(device_id_to_revoke) is None,
            forall|x: u128|
                x != device_id_to_revoke ==> final(store).spec_device(x) == old(
                    store,
                ).spec_device(x),
            forall|k: (u128, u128)|
                k.0 == device_id_to_revoke || k.1 == device_id_to_revoke ==> final(store).spec_session_at(k) is None,
            forall|k: (u128, u128)|
                k.0 != device_id_to_revoke && k.1 != device_id_to_revoke ==> final(store).spec_session_at(k) == old(store).spec_session_at(k),
    {
        store.delete_device(device_id_to_revoke);
        Ok(())
    }
}

} // verus!

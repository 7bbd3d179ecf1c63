use airic_mesh::app_message::ApplicationMessage;
use airic_mesh::errors::MeshError;
use airic_mesh::store::MeshStore;
use airic_mesh::use_cases::{
    FinalizeProvisioning, HandleIncomingMessage, ProvisionNewDevice, RevokeDevice, SendMessage,
};

#[test]
fn device_account_state_round_trip_keeps_identity_key() {
    let mut store = MeshStore::new();
    let (device, _invitation) = ProvisionNewDevice::new()
        .execute(&mut store, "round trip".to_string())
        .expect("provisioning succeeds");
    let first = device.account().expect("account restores");
    let second = device.account().expect("account restores again");
    assert_eq!(
        first.identity_keys().curve25519,
        second.identity_keys().curve25519
    );
}

#[test]
fn send_without_session_fails_and_changes_nothing() {
    let mut store = MeshStore::new();
    let (device, _invitation) = ProvisionNewDevice::new()
        .execute(&mut store, "lonely".to_string())
        .expect("provisioning succeeds");
    let message = ApplicationMessage { payload: "\"hi\"".to_string(), timestamp: 1 };
    let recipient: u128 = 12345;
    let r = SendMessage::new(device.id).execute(&mut store, recipient, &message);
    assert!(
        matches!(r, Err(MeshError::SessionNotFound(a, b)) if a == device.id && b == recipient)
    );
    // no session appeared as a side effect
    assert!(matches!(
        store.load_session(device.id, recipient),
        Err(MeshError::SessionNotFound(_, _))
    ));
}

#[test]
fn finalize_with_invalid_invitation_fails_and_creates_no_session() {
    let mut store = MeshStore::new();
    let (device, _invitation) = ProvisionNewDevice::new()
        .execute(&mut store, "validator".to_string())
        .expect("provisioning succeeds");
    // an invitation without the one_time_key field
    let bad = "{\"device_id\":\"00000000000000000000000000000005\",\"identity_key\":\"ikey\"}";
    let r = FinalizeProvisioning::new(device.id).execute(&mut store, bad);
    assert!(matches!(r, Err(MeshError::Serialization)));
    assert!(matches!(
        store.load_session(device.id, 5),
        Err(MeshError::SessionNotFound(_, _))
    ));
}

#[test]
fn finalize_without_local_device_fails_not_found() {
    let mut store_a = MeshStore::new();
    let (_device_a, invitation) = ProvisionNewDevice::new()
        .execute(&mut store_a, "inviter".to_string())
        .expect("provisioning succeeds");
    let mut empty_store = MeshStore::new();
    let missing: u128 = 777;
    let r = FinalizeProvisioning::new(missing).execute(&mut empty_store, &invitation);
    assert!(matches!(r, Err(MeshError::DeviceNotFound(x)) if x == missing));
}

#[test]
fn end_to_end_provision_finalize_and_exchange() {
    // Device A provisions and shares an invitation out of band.
    let mut store_a = MeshStore::new();
    let (device_a, invitation) = ProvisionNewDevice::new()
        .execute(&mut store_a, "device a".to_string())
        .expect("provisioning a succeeds");

    // Device B provisions itself, then finalizes with A's invitation.
    let mut store_b = MeshStore::new();
    let (device_b, _unused_invitation) = ProvisionNewDevice::new()
        .execute(&mut store_b, "device b".to_string())
        .expect("provisioning b succeeds");
    let (remote_id, handshake_wire) = FinalizeProvisioning::new(device_b.id)
        .execute(&mut store_b, &invitation)
        .expect("finalize succeeds");
    assert_eq!(remote_id, device_a.id);
    assert_eq!(handshake_wire.sender_device_id, device_b.id);
    // B now holds Session(B, A)
    assert!(store_b.load_session(device_b.id, device_a.id).is_ok());

    // A receives the handshake: first contact establishes Session(A, B) and
    // yields a well-formed message with a null payload.
    let first = HandleIncomingMessage::new(device_a.id)
        .execute(&mut store_a, handshake_wire)
        .expect("first contact succeeds");
    assert_eq!(first.payload, "null");
    let session_after_handshake = store_a
        .load_session(device_a.id, device_b.id)
        .expect("session (a, b) established");

    // B sends a greeting; its stored ratchet state advances.
    let before_send = store_b
        .load_session(device_b.id, device_a.id)
        .expect("session (b, a) exists")
        .pickled_session;
    let greeting = ApplicationMessage {
        payload: "{\"type\":\"greeting\"}".to_string(),
        timestamp: 1700000000000,
    };
    let greeting_wire = SendMessage::new(device_b.id)
        .execute(&mut store_b, device_a.id, &greeting)
        .expect("send succeeds");
    let after_send = store_b
        .load_session(device_b.id, device_a.id)
        .expect("session (b, a) still exists")
        .pickled_session;
    assert_ne!(before_send, after_send);

    // A receives the greeting unchanged, and its ratchet state advances too.
    let received = HandleIncomingMessage::new(device_a.id)
        .execute(&mut store_a, greeting_wire)
        .expect("receive succeeds");
    assert_eq!(received.payload, "{\"type\":\"greeting\"}");
    assert_eq!(received.timestamp, 1700000000000);
    let session_after_greeting = store_a
        .load_session(device_a.id, device_b.id)
        .expect("session (a, b) still exists");
    assert_ne!(
        session_after_handshake.pickled_session,
        session_after_greeting.pickled_session
    );
    assert_eq!(session_after_handshake.id, session_after_greeting.id);

    // A replies over the established pair; B reads it back.
    let reply = ApplicationMessage { payload: "\"pong\"".to_string(), timestamp: 2 };
    let reply_wire = SendMessage::new(device_a.id)
        .execute(&mut store_a, device_b.id, &reply)
        .expect("reply succeeds");
    let got = HandleIncomingMessage::new(device_b.id)
        .execute(&mut store_b, reply_wire)
        .expect("b receives reply");
    assert_eq!(got.payload, "\"pong\"");
}

#[test]
fn duplicate_delivery_fails_decryption_and_keeps_state() {
    let mut store_a = MeshStore::new();
    let (device_a, invitation) = ProvisionNewDevice::new()
        .execute(&mut store_a, "a".to_string())
        .expect("provision a");
    let mut store_b = MeshStore::new();
    let (device_b, _inv_b) = ProvisionNewDevice::new()
        .execute(&mut store_b, "b".to_string())
        .expect("provision b");
    let (_remote, handshake_wire) = FinalizeProvisioning::new(device_b.id)
        .execute(&mut store_b, &invitation)
        .expect("finalize");
    HandleIncomingMessage::new(device_a.id)
        .execute(&mut store_a, handshake_wire)
        .expect("first contact");
    let m = ApplicationMessage { payload: "1".to_string(), timestamp: 3 };
    let wire = SendMessage::new(device_b.id)
        .execute(&mut store_b, device_a.id, &m)
        .expect("send");
    let wire_copy = airic_mesh::wire::WireMessage {
        ciphertext: wire.ciphertext.clone(),
        sender_device_id: wire.sender_device_id,
    };
    HandleIncomingMessage::new(device_a.id)
        .execute(&mut store_a, wire)
        .expect("first delivery decrypts");
    let before = store_a
        .load_session(device_a.id, device_b.id)
        .expect("session exists")
        .pickled_session;
    let r = HandleIncomingMessage::new(device_a.id).execute(&mut store_a, wire_copy);
    assert!(matches!(r, Err(MeshError::Cryptography)));
    let after = store_a
        .load_session(device_a.id, device_b.id)
        .expect("session still exists")
        .pickled_session;
    assert_eq!(before, after);
}

#[test]
fn revocation_cascade_removes_device_and_its_sessions() {
    let mut store_a = MeshStore::new();
    let (device_a, invitation) = ProvisionNewDevice::new()
        .execute(&mut store_a, "a".to_string())
        .expect("provision a");
    let mut store_b = MeshStore::new();
    let (device_b, _inv_b) = ProvisionNewDevice::new()
        .execute(&mut store_b, "b".to_string())
        .expect("provision b");
    let (_remote, handshake_wire) = FinalizeProvisioning::new(device_b.id)
        .execute(&mut store_b, &invitation)
        .expect("finalize");
    HandleIncomingMessage::new(device_a.id)
        .execute(&mut store_a, handshake_wire)
        .expect("first contact");
    assert!(store_a.load_session(device_a.id, device_b.id).is_ok());

    // revoking B on node A removes the session with B but keeps A's device
    RevokeDevice::new()
        .execute(&mut store_a, device_b.id)
        .expect("revocation is local cleanup");
    assert!(matches!(
        store_a.load_device(device_b.id),
        Err(MeshError::DeviceNotFound(_))
    ));
    assert!(matches!(
        store_a.load_session(device_a.id, device_b.id),
        Err(MeshError::SessionNotFound(_, _))
    ));
    assert!(matches!(
        store_a.load_session(device_b.id, device_a.id),
        Err(MeshError::SessionNotFound(_, _))
    ));
    assert!(store_a.load_device(device_a.id).is_ok());

    // revoking A itself removes its own record too
    RevokeDevice::new()
        .execute(&mut store_a, device_a.id)
        .expect("revocation succeeds");
    assert!(matches!(
        store_a.load_device(device_a.id),
        Err(MeshError::DeviceNotFound(_))
    ));
}
